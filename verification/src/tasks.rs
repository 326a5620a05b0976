//! Custom task execution order: a task runs after its dependencies, each
//! task at most once, depth first in the order the dependencies are listed.
use vstd::prelude::*;
use crate::config::{MontConfig, TaskConfig, names_of};
use crate::text::str_eq;

verus! {

/// The names of the tasks in a task table, in table order.
pub open spec fn task_names(tasks: Seq<(String, TaskConfig)>) -> Seq<Seq<char>> {
    tasks.map_values(|p: (String, TaskConfig)| p.0@)
}

/// Whether the table defines a task called `name`.
pub open spec fn has_task(tasks: Seq<(String, TaskConfig)>, name: Seq<char>) -> bool {
    exists|i: int| 0 <= i < tasks.len() && tasks[i].0@ == name
}

/// Whether `i` is the first entry of the table called `name`.
pub open spec fn is_first_entry(tasks: Seq<(String, TaskConfig)>, name: Seq<char>, i: int) -> bool {
    &&& 0 <= i < tasks.len()
    &&& tasks[i].0@ == name
    &&& forall|j: int| 0 <= j < i ==> tasks[j].0@ != name
}

/// The entry a lookup of `name` finds: the first one with that name.
pub open spec fn first_entry(tasks: Seq<(String, TaskConfig)>, name: Seq<char>) -> int {
    choose|i: int| is_first_entry(tasks, name, i)
}

/// The dependencies of the task `name`, as the lookup finds it.
pub open spec fn task_deps(tasks: Seq<(String, TaskConfig)>, name: Seq<char>) -> Seq<Seq<char>> {
    tasks[first_entry(tasks, name)].1.deps()
}

/// How a run of a task ends.
pub enum PlanEnd {
    /// The task and all it depends on ran.
    Complete,
    /// A task that was asked for is not defined.
    MissingTask(Seq<char>),
    /// The task depends, directly or not, on itself: running it recurses
    /// without end.
    Cycle(Seq<char>),
}

/// Whether `stack` can be the chain of tasks being run: distinct tasks that
/// are all defined.
pub open spec fn stack_ok(tasks: Seq<(String, TaskConfig)>, stack: Seq<Seq<char>>) -> bool {
    &&& stack.no_duplicates()
    &&& forall|i: int| 0 <= i < stack.len() ==> has_task(tasks, #[trigger] stack[i])
}

/// Running the task `name` when the tasks `done` have already run and the
/// tasks `stack` are waiting for it: the tasks that have run afterwards, in
/// order, and how the run ends.
pub open spec fn plan_task(
    tasks: Seq<(String, TaskConfig)>,
    name: Seq<char>,
    done: Seq<Seq<char>>,
    stack: Seq<Seq<char>>,
) -> (Seq<Seq<char>>, PlanEnd)
    decreases tasks.len() - stack.len(), 0int when stack_ok(tasks, stack)
{
    if done.contains(name) {
        (done, PlanEnd::Complete)
    } else if stack.contains(name) {
        (done, PlanEnd::Cycle(name))
    } else if !has_task(tasks, name) {
        (done, PlanEnd::MissingTask(name))
    } else {
        proof {
            lemma_stack_room(tasks, stack, name);
        }
        let r = plan_deps(tasks, task_deps(tasks, name), 0, done, stack.push(name));
        if r.1 is Complete {
            (r.0.push(name), PlanEnd::Complete)
        } else {
            r
        }
    }
}

/// Running the dependencies `deps[i..]` in order, stopping at the first
/// that does not complete.
pub open spec fn plan_deps(
    tasks: Seq<(String, TaskConfig)>,
    deps: Seq<Seq<char>>,
    i: int,
    done: Seq<Seq<char>>,
    stack: Seq<Seq<char>>,
) -> (Seq<Seq<char>>, PlanEnd)
    decreases tasks.len() - stack.len(), deps.len() - i when stack_ok(tasks, stack) && 0 <= i
{
    if i >= deps.len() {
        (done, PlanEnd::Complete)
    } else {
        let r = plan_task(tasks, deps[i], done, stack);
        if r.1 is Complete {
            plan_deps(tasks, deps, i + 1, r.0, stack)
        } else {
            r
        }
    }
}

/// Running the task `name` from a fresh start.
pub open spec fn task_plan(tasks: Seq<(String, TaskConfig)>, name: Seq<char>) -> (Seq<Seq<char>>, PlanEnd) {
    plan_task(tasks, name, Seq::empty(), Seq::empty())
}

/// A chain of distinct defined tasks, extended by one more defined task not
/// on it, is still no longer than the table.
pub proof fn lemma_stack_room(tasks: Seq<(String, TaskConfig)>, stack: Seq<Seq<char>>, name: Seq<char>)
    requires
        stack_ok(tasks, stack),
        !stack.contains(name),
        has_task(tasks, name),
    ensures
        stack.len() < tasks.len(),
        stack_ok(tasks, stack.push(name)),
{
    let s2 = stack.push(name);
    let names = task_names(tasks);
    assert forall|i: int| 0 <= i < s2.len() implies has_task(tasks, #[trigger] s2[i]) by {
        if i < stack.len() {
            assert(s2[i] == stack[i]);
        }
    }
    assert(s2.no_duplicates()) by {
        assert forall|i: int, j: int| 0 <= i < s2.len() && 0 <= j < s2.len() && i != j implies s2[i] != s2[j] by {
            if i < stack.len() && j < stack.len() {
                assert(s2[i] == stack[i] && s2[j] == stack[j]);
            } else if i == stack.len() {
                assert(s2[j] == stack[j]);
            } else {
                assert(s2[i] == stack[i]);
            }
        }
    }
    s2.unique_seq_to_set();
    assert(s2.to_set().subset_of(names.to_set())) by {
        assert forall|x: Seq<char>| s2.to_set().contains(x) implies names.to_set().contains(x) by {
            let k = choose|k: int| 0 <= k < s2.len() && s2[k] == x;
            assert(has_task(tasks, s2[k]));
            let t = choose|t: int| 0 <= t < tasks.len() && tasks[t].0@ == x;
            assert(names[t] == x);
        }
    }
    names.lemma_cardinality_of_set();
    vstd::set_lib::lemma_len_subset(s2.to_set(), names.to_set());
}


/// Whether `steps` is a valid order to run tasks in: each step is a defined
/// task, no task runs twice, and every dependency of a step runs before it.
pub open spec fn runs_in_order(tasks: Seq<(String, TaskConfig)>, steps: Seq<Seq<char>>) -> bool {
    &&& steps.no_duplicates()
    &&& forall|k: int| 0 <= k < steps.len() ==> has_task(tasks, #[trigger] steps[k])
    &&& forall|k: int, j: int|
        #![trigger task_deps(tasks, steps[k])[j]]
        0 <= k < steps.len() && 0 <= j < task_deps(tasks, steps[k]).len()
            ==> steps.take(k).contains(task_deps(tasks, steps[k])[j])
}

/// `after` is `before` followed by tasks none of which is on `stack`.
pub open spec fn extends_off_stack(
    before: Seq<Seq<char>>,
    after: Seq<Seq<char>>,
    stack: Seq<Seq<char>>,
) -> bool {
    &&& before.len() <= after.len()
    &&& after.take(before.len() as int) == before
    &&& forall|k: int| before.len() <= k < after.len() ==> !stack.contains(#[trigger] after[k])
}

proof fn lemma_extends_trans(
    a: Seq<Seq<char>>,
    b: Seq<Seq<char>>,
    c: Seq<Seq<char>>,
    stack: Seq<Seq<char>>,
)
    requires
        extends_off_stack(a, b, stack),
        extends_off_stack(b, c, stack),
    ensures
        extends_off_stack(a, c, stack),
        forall|x: Seq<char>| a.contains(x) ==> c.contains(x),
{
    assert(c.take(a.len() as int) =~= a) by {
        assert forall|k: int| 0 <= k < a.len() implies c[k] == a[k] by {
            assert(c.take(b.len() as int)[k] == b[k]);
            assert(b.take(a.len() as int)[k] == a[k]);
        }
    }
    assert forall|k: int| a.len() <= k < c.len() implies !stack.contains(#[trigger] c[k]) by {
        if k < b.len() {
            assert(c.take(b.len() as int)[k] == b[k]);
        }
    }
    assert forall|x: Seq<char>| a.contains(x) implies c.contains(x) by {
        let m = choose|m: int| 0 <= m < a.len() && a[m] == x;
        assert(c.take(a.len() as int)[m] == a[m]);
        assert(c[m] == x);
    }
}

proof fn lemma_extends_contains(a: Seq<Seq<char>>, b: Seq<Seq<char>>, stack: Seq<Seq<char>>, x: Seq<char>)
    requires
        extends_off_stack(a, b, stack),
        a.contains(x),
    ensures
        b.contains(x),
{
    let m = choose|m: int| 0 <= m < a.len() && a[m] == x;
    assert(b.take(a.len() as int)[m] == a[m]);
    assert(b[m] == x);
}

proof fn lemma_order_push(tasks: Seq<(String, TaskConfig)>, steps: Seq<Seq<char>>, name: Seq<char>)
    requires
        runs_in_order(tasks, steps),
        !steps.contains(name),
        has_task(tasks, name),
        forall|j: int| 0 <= j < task_deps(tasks, name).len() ==> steps.contains(#[trigger] task_deps(tasks, name)[j]),
    ensures
        runs_in_order(tasks, steps.push(name)),
{
    let s2 = steps.push(name);
    assert forall|k: int| 0 <= k < s2.len() implies has_task(tasks, #[trigger] s2[k]) by {
        if k < steps.len() {
            assert(s2[k] == steps[k]);
        }
    }
    assert forall|i: int, j: int| 0 <= i < s2.len() && 0 <= j < s2.len() && i != j implies s2[i] != s2[j] by {
        if i < steps.len() && j < steps.len() {
            assert(s2[i] == steps[i] && s2[j] == steps[j]);
        } else if i == steps.len() {
            assert(s2[j] == steps[j]);
        } else {
            assert(s2[i] == steps[i]);
        }
    }
    assert forall|k: int, j: int|
        0 <= k < s2.len() && 0 <= j < task_deps(tasks, s2[k]).len()
        implies #[trigger] s2.take(k).contains(task_deps(tasks, s2[k])[j]) by {
        if k < steps.len() {
            assert(s2[k] == steps[k]);
            assert(s2.take(k) =~= steps.take(k));
            assert(steps.take(k).contains(task_deps(tasks, steps[k])[j]));
        } else {
            assert(s2.take(k) =~= steps);
            assert(steps.contains(task_deps(tasks, name)[j]));
        }
    }
}

/// What running a task keeps: if it completes, the tasks run so far stay in
/// a valid order, only grow, gain no task that was waiting, and include the
/// task.
proof fn lemma_plan_task_order(
    tasks: Seq<(String, TaskConfig)>,
    name: Seq<char>,
    done: Seq<Seq<char>>,
    stack: Seq<Seq<char>>,
)
    requires
        stack_ok(tasks, stack),
        runs_in_order(tasks, done),
    ensures
        plan_task(tasks, name, done, stack).1 is Complete ==> {
            let after = plan_task(tasks, name, done, stack).0;
            &&& runs_in_order(tasks, after)
            &&& extends_off_stack(done, after, stack)
            &&& after.contains(name)
        },
    decreases tasks.len() - stack.len(), 0int,
{
    if done.contains(name) {
        assert(done.take(done.len() as int) =~= done);
    } else if stack.contains(name) {
    } else if !has_task(tasks, name) {
    } else {
        lemma_stack_room(tasks, stack, name);
        let s1 = stack.push(name);
        let deps = task_deps(tasks, name);
        let r = plan_deps(tasks, deps, 0, done, s1);
        lemma_plan_deps_order(tasks, deps, 0, done, s1);
        if r.1 is Complete {
            let after = r.0.push(name);
            assert(!r.0.contains(name)) by {
                if r.0.contains(name) {
                    let m = choose|m: int| 0 <= m < r.0.len() && r.0[m] == name;
                    if m < done.len() {
                        assert(r.0.take(done.len() as int)[m] == done[m]);
                    } else {
                        assert(s1.contains(r.0[m])) by {
                            assert(s1[stack.len() as int] == name);
                        }
                    }
                }
            }
            assert forall|j: int| 0 <= j < deps.len() implies r.0.contains(#[trigger] deps[j]) by {}
            lemma_order_push(tasks, r.0, name);
            assert(after.take(done.len() as int) =~= r.0.take(done.len() as int));
            assert forall|k: int| done.len() <= k < after.len() implies !stack.contains(#[trigger] after[k]) by {
                if k < r.0.len() {
                    assert(after[k] == r.0[k]);
                    if stack.contains(r.0[k]) {
                        let m = choose|m: int| 0 <= m < stack.len() && stack[m] == r.0[k];
                        assert(s1[m] == stack[m]);
                    }
                }
            }
            assert(after[after.len() - 1] == name);
        }
    }
}

proof fn lemma_plan_deps_order(
    tasks: Seq<(String, TaskConfig)>,
    deps: Seq<Seq<char>>,
    i: int,
    done: Seq<Seq<char>>,
    stack: Seq<Seq<char>>,
)
    requires
        stack_ok(tasks, stack),
        runs_in_order(tasks, done),
        0 <= i,
    ensures
        plan_deps(tasks, deps, i, done, stack).1 is Complete ==> {
            let after = plan_deps(tasks, deps, i, done, stack).0;
            &&& runs_in_order(tasks, after)
            &&& extends_off_stack(done, after, stack)
            &&& forall|j: int| i <= j < deps.len() ==> after.contains(#[trigger] deps[j])
        },
    decreases tasks.len() - stack.len(), deps.len() - i,
{
    if i >= deps.len() {
        assert(done.take(done.len() as int) =~= done);
    } else {
        let r = plan_task(tasks, deps[i], done, stack);
        lemma_plan_task_order(tasks, deps[i], done, stack);
        if r.1 is Complete {
            lemma_plan_deps_order(tasks, deps, i + 1, r.0, stack);
            let r2 = plan_deps(tasks, deps, i + 1, r.0, stack);
            if r2.1 is Complete {
                lemma_extends_trans(done, r.0, r2.0, stack);
                lemma_extends_contains(r.0, r2.0, stack, deps[i]);
            }
        }
    }
}

/// When running a task completes, the tasks it runs come in a valid order:
/// every task is defined and runs at most once, each runs after all the
/// tasks it depends on, and the requested task runs last.
pub proof fn law_plan_runs_dependencies_first(tasks: Seq<(String, TaskConfig)>, name: Seq<char>)
    requires
        task_plan(tasks, name).1 is Complete,
    ensures
        runs_in_order(tasks, task_plan(tasks, name).0),
        task_plan(tasks, name).0.len() > 0,
        task_plan(tasks, name).0.last() == name,
{
    let empty = Seq::<Seq<char>>::empty();
    assert(stack_ok(tasks, empty));
    assert(runs_in_order(tasks, empty));
    lemma_plan_task_order(tasks, name, empty, empty);
    let s1 = empty.push(name);
    let deps = task_deps(tasks, name);
    lemma_stack_room(tasks, empty, name);
    let r = plan_deps(tasks, deps, 0, empty, s1);
    assert(task_plan(tasks, name).0 == r.0.push(name));
}

/// Whether the defined task `a` lists `b` among its dependencies.
pub open spec fn dep_edge(tasks: Seq<(String, TaskConfig)>, a: Seq<char>, b: Seq<char>) -> bool {
    has_task(tasks, a) && task_deps(tasks, a).contains(b)
}

/// Whether each task of `p` lists the next one among its dependencies.
pub open spec fn is_chain(tasks: Seq<(String, TaskConfig)>, p: Seq<Seq<char>>) -> bool {
    forall|i: int, j: int| 0 <= i && j == i + 1 && j < p.len() ==> #[trigger] dep_edge(tasks, p[i], p[j])
}

/// Whether running `a` leads to `b`: `b` is `a`, or a dependency of a task
/// that running `a` leads to.
pub open spec fn reaches(tasks: Seq<(String, TaskConfig)>, a: Seq<char>, b: Seq<char>) -> bool {
    exists|p: Seq<Seq<char>>| #[trigger] is_chain(tasks, p) && p.len() >= 1 && p[0] == a && p.last() == b
}

/// Whether the task `x` depends on itself, directly or through other tasks.
pub open spec fn on_cycle(tasks: Seq<(String, TaskConfig)>, x: Seq<char>) -> bool {
    exists|p: Seq<Seq<char>>| #[trigger] is_chain(tasks, p) && p.len() >= 2 && p[0] == x && p.last() == x
}

/// A chain stays a chain when a dependency of its last task is appended.
proof fn lemma_chain_push(tasks: Seq<(String, TaskConfig)>, s: Seq<Seq<char>>, y: Seq<char>)
    requires
        is_chain(tasks, s),
        s.len() >= 1,
        dep_edge(tasks, s.last(), y),
    ensures
        is_chain(tasks, s.push(y)),
{
    let s2 = s.push(y);
    assert forall|i: int, j: int| 0 <= i && j == i + 1 && j < s2.len() implies #[trigger] dep_edge(tasks, s2[i], s2[j]) by {
        if j < s.len() {
            assert(s2[i] == s[i] && s2[j] == s[j]);
            assert(dep_edge(tasks, s[i], s[j]));
        } else {
            assert(s2[i] == s.last() && s2[j] == y);
        }
    }
}

/// A stretch of a chain is a chain.
proof fn lemma_chain_skip(tasks: Seq<(String, TaskConfig)>, s: Seq<Seq<char>>, m: int)
    requires
        is_chain(tasks, s),
        0 <= m <= s.len(),
    ensures
        is_chain(tasks, s.subrange(m, s.len() as int)),
{
    let s2 = s.subrange(m, s.len() as int);
    assert forall|i: int, j: int| 0 <= i && j == i + 1 && j < s2.len() implies #[trigger] dep_edge(tasks, s2[i], s2[j]) by {
        assert(s2[i] == s[i + m] && s2[j] == s[j + m]);
        assert(dep_edge(tasks, s[i + m], s[j + m]));
    }
}

/// Running `x`, reached from `root` along the waiting chain `stack`,
/// completes when every task `root` leads to is defined and none depends on
/// itself.
proof fn lemma_plan_task_completes(
    tasks: Seq<(String, TaskConfig)>,
    root: Seq<char>,
    x: Seq<char>,
    done: Seq<Seq<char>>,
    stack: Seq<Seq<char>>,
)
    requires
        stack_ok(tasks, stack),
        is_chain(tasks, stack.push(x)),
        stack.push(x)[0] == root,
        forall|y: Seq<char>| #[trigger] reaches(tasks, root, y) ==> has_task(tasks, y),
        forall|y: Seq<char>| #[trigger] reaches(tasks, root, y) ==> !on_cycle(tasks, y),
    ensures
        plan_task(tasks, x, done, stack).1 is Complete,
    decreases tasks.len() - stack.len(), 0int,
{
    let p = stack.push(x);
    assert(p.last() == x);
    assert(reaches(tasks, root, x));
    if done.contains(x) {
    } else if stack.contains(x) {
        let m = choose|m: int| 0 <= m < stack.len() && stack[m] == x;
        lemma_chain_skip(tasks, p, m);
        let c = p.subrange(m, p.len() as int);
        assert(c[0] == x && c.last() == x && c.len() >= 2);
        assert(on_cycle(tasks, x));
    } else if !has_task(tasks, x) {
    } else {
        lemma_stack_room(tasks, stack, x);
        lemma_plan_deps_complete(tasks, root, task_deps(tasks, x), 0, done, p);
    }
}

/// Running the dependencies `deps[i..]` of the last task of the chain `s`
/// completes under the same conditions.
proof fn lemma_plan_deps_complete(
    tasks: Seq<(String, TaskConfig)>,
    root: Seq<char>,
    deps: Seq<Seq<char>>,
    i: int,
    done: Seq<Seq<char>>,
    s: Seq<Seq<char>>,
)
    requires
        stack_ok(tasks, s),
        s.len() >= 1,
        is_chain(tasks, s),
        s[0] == root,
        has_task(tasks, s.last()),
        deps == task_deps(tasks, s.last()),
        0 <= i,
        forall|y: Seq<char>| #[trigger] reaches(tasks, root, y) ==> has_task(tasks, y),
        forall|y: Seq<char>| #[trigger] reaches(tasks, root, y) ==> !on_cycle(tasks, y),
    ensures
        plan_deps(tasks, deps, i, done, s).1 is Complete,
    decreases tasks.len() - s.len(), deps.len() - i,
{
    if i < deps.len() {
        assert(deps.contains(deps[i]));
        lemma_chain_push(tasks, s, deps[i]);
        assert(s.push(deps[i])[0] == root);
        lemma_plan_task_completes(tasks, root, deps[i], done, s);
        let r = plan_task(tasks, deps[i], done, s);
        lemma_plan_deps_complete(tasks, root, deps, i + 1, r.0, s);
    }
}

/// Running a task completes whenever every task it leads to is defined and
/// none of them depends on itself; its steps then run every task after the
/// tasks it depends on, each once, and end with the requested task.
pub proof fn law_plan_completes_without_cycles(tasks: Seq<(String, TaskConfig)>, name: Seq<char>)
    requires
        forall|y: Seq<char>| #[trigger] reaches(tasks, name, y) ==> has_task(tasks, y),
        forall|y: Seq<char>| #[trigger] reaches(tasks, name, y) ==> !on_cycle(tasks, y),
    ensures
        task_plan(tasks, name).1 is Complete,
        runs_in_order(tasks, task_plan(tasks, name).0),
        task_plan(tasks, name).0.len() > 0,
        task_plan(tasks, name).0.last() == name,
{
    let empty = Seq::<Seq<char>>::empty();
    assert(stack_ok(tasks, empty));
    assert(is_chain(tasks, empty.push(name)));
    lemma_plan_task_completes(tasks, name, name, empty, empty);
    law_plan_runs_dependencies_first(tasks, name);
}

/// How running a task ended.
#[derive(Debug, Clone, PartialEq, Eq)]
pub enum PlanOutcome {
    /// The task and all it depends on ran.
    Complete,
    /// The named task is not defined.
    MissingTask(String),
    /// The named task depends on itself, directly or not.
    Cycle(String),
}

/// The abstract ending an outcome stands for.
pub open spec fn outcome_view(o: PlanOutcome) -> PlanEnd {
    match o {
        PlanOutcome::Complete => PlanEnd::Complete,
        PlanOutcome::MissingTask(n) => PlanEnd::MissingTask(n@),
        PlanOutcome::Cycle(n) => PlanEnd::Cycle(n@),
    }
}

/// The tasks to run for a request, in order, and how the run ends after
/// them.
#[derive(Debug, Clone)]
pub struct TaskPlan {
    pub steps: Vec<String>,
    pub outcome: PlanOutcome,
}

/// Whether `name` is one of the strings in `v`.
pub fn contains_name(v: &Vec<String>, name: &str) -> (b: bool)
    ensures
        b == names_of(v@).contains(name@),
{
    let mut i: usize = 0;
    while i < v.len()
        invariant
            i <= v@.len(),
            forall|j: int| 0 <= j < i ==> v@[j]@ != name@,
        decreases v.len() - i,
    {
        if str_eq(v[i].as_str(), name) {
            assert(names_of(v@)[i as int] == name@);
            return true;
        }
        i = i + 1;
    }
    assert forall|j: int| 0 <= j < names_of(v@).len() implies names_of(v@)[j] != name@ by {
        assert(names_of(v@)[j] == v@[j]@);
    }
    false
}

/// The position of the first task called `name`, if there is one.
pub fn find_task_index(tasks: &Vec<(String, TaskConfig)>, name: &str) -> (r: Option<usize>)
    ensures
        match r {
            Some(i) => has_task(tasks@, name@) && i as int == first_entry(tasks@, name@)
                && is_first_entry(tasks@, name@, i as int),
            None => !has_task(tasks@, name@),
        },
{
    let mut i: usize = 0;
    while i < tasks.len()
        invariant
            i <= tasks@.len(),
            forall|j: int| 0 <= j < i ==> tasks@[j].0@ != name@,
        decreases tasks.len() - i,
    {
        if str_eq(tasks[i].0.as_str(), name) {
            assert(is_first_entry(tasks@, name@, i as int));
            proof {
                lemma_first_entry_unique(tasks@, name@, i as int);
            }
            return Some(i);
        }
        i = i + 1;
    }
    None
}

/// Only one entry is the first one with a given name.
pub proof fn lemma_first_entry_unique(tasks: Seq<(String, TaskConfig)>, name: Seq<char>, i: int)
    requires
        is_first_entry(tasks, name, i),
    ensures
        first_entry(tasks, name) == i,
        has_task(tasks, name),
{
    let k = first_entry(tasks, name);
    assert(is_first_entry(tasks, name, k));
    if k < i {
        assert(tasks[k].0@ != name);
    } else if k > i {
        assert(tasks[i].0@ != name);
    }
}

proof fn lemma_names_push(v: Seq<String>, s: String)
    ensures
        names_of(v.push(s)) == names_of(v).push(s@),
{
    assert(names_of(v.push(s)) =~= names_of(v).push(s@));
}

proof fn lemma_names_pop(v: Seq<String>)
    requires
        v.len() > 0,
    ensures
        names_of(v.drop_last()) == names_of(v).drop_last(),
{
    assert(names_of(v.drop_last()) =~= names_of(v).drop_last());
}

/// Runs `name` as `plan_task` does, recording the tasks that run in `done`.
fn plan_rec(
    tasks: &Vec<(String, TaskConfig)>,
    name: &str,
    done: &mut Vec<String>,
    stack: &mut Vec<String>,
) -> (end: PlanOutcome)
    requires
        stack_ok(tasks@, names_of(old(stack)@)),
    ensures
        names_of(final(stack)@) == names_of(old(stack)@),
        final(stack)@.len() == old(stack)@.len(),
        (names_of(final(done)@), outcome_view(end)) == plan_task(
            tasks@,
            name@,
            names_of(old(done)@),
            names_of(old(stack)@),
        ),
    decreases tasks@.len() - stack@.len(), 0int,
{
    let ghost done0 = names_of(done@);
    let ghost stack0 = names_of(stack@);
    if contains_name(done, name) {
        return PlanOutcome::Complete;
    }
    if contains_name(stack, name) {
        return PlanOutcome::Cycle(name.to_owned());
    }
    let idx = match find_task_index(tasks, name) {
        None => {
            return PlanOutcome::MissingTask(name.to_owned());
        },
        Some(i) => i,
    };
    proof {
        lemma_stack_room(tasks@, stack0, name@);
    }
    let ghost s1 = stack0.push(name@);
    let ghost deps = task_deps(tasks@, name@);
    let ghost whole = plan_deps(tasks@, deps, 0, done0, s1);
    let ghost stack_before = stack@;
    let owned_name = name.to_owned();
    stack.push(owned_name);
    proof {
        lemma_names_push(stack_before, owned_name);
    }
    match &tasks[idx].1 {
        TaskConfig::Simple(_) => {
            assert(deps.len() == 0);
        },
        TaskConfig::Detailed { dependencies, .. } => {
            assert(deps == names_of(dependencies@));
            let mut i: usize = 0;
            while i < dependencies.len()
                invariant
                    0 <= i <= dependencies@.len(),
                    deps == names_of(dependencies@),
                    stack_ok(tasks@, s1),
                    names_of(stack@) == s1,
                    stack@.len() == s1.len(),
                    s1.len() <= tasks@.len(),
                    stack@.len() == old(stack)@.len() + 1,
                    old(stack)@.len() < tasks@.len(),
                    stack0 == names_of(old(stack)@),
                    done0 == names_of(old(done)@),
                    s1 == stack0.push(name@),
                    stack_ok(tasks@, stack0),
                    !done0.contains(name@),
                    !stack0.contains(name@),
                    has_task(tasks@, name@),
                    deps == task_deps(tasks@, name@),
                    whole == plan_deps(tasks@, deps, 0, done0, s1),
                    whole == plan_deps(tasks@, deps, i as int, names_of(done@), s1),
                decreases dependencies.len() - i,
            {
                let dep = dependencies[i].as_str();
                assert(deps[i as int] == dep@);
                let ghost done_i = names_of(done@);
                let r = plan_rec(tasks, dep, done, stack);
                if !matches!(r, PlanOutcome::Complete) {
                    let ghost before_pop = stack@;
                    stack.pop();
                    proof {
                        lemma_names_pop(before_pop);
                        assert(s1.drop_last() =~= stack0);
                    }
                    return r;
                }
                assert(plan_deps(tasks@, deps, i as int, done_i, s1) == plan_deps(
                    tasks@, deps, i + 1, names_of(done@), s1));
                i = i + 1;
            }
        },
    }
    let ghost before_pop = stack@;
    stack.pop();
    proof {
        lemma_names_pop(before_pop);
    }
    let ghost done_before = done@;
    let owned = name.to_owned();
    done.push(owned);
    proof {
        lemma_names_push(done_before, owned);
    }
    PlanOutcome::Complete
}

impl MontConfig {
    /// The task configured under `name`: the first entry with that name.
    pub fn task(&self, name: &str) -> (t: Option<&TaskConfig>)
        ensures
            match t {
                Some(c) => has_task(self.tasks@, name@) && *c == self.tasks@[first_entry(self.tasks@, name@)].1,
                None => !has_task(self.tasks@, name@),
            },
    {
        match find_task_index(&self.tasks, name) {
            Some(i) => Some(&self.tasks[i].1),
            None => None,
        }
    }

    /// The order in which running the task `name` runs tasks: every task
    /// after the tasks it depends on, each at most once, and how the run
    /// ends once those tasks have run.
    pub fn plan_task(&self, name: &str) -> (plan: TaskPlan)
        ensures
            (names_of(plan.steps@), outcome_view(plan.outcome)) == task_plan(self.tasks@, name@),
    {
        let mut done: Vec<String> = Vec::new();
        let mut stack: Vec<String> = Vec::new();
        assert(names_of(done@) =~= Seq::<Seq<char>>::empty());
        assert(names_of(stack@) =~= Seq::<Seq<char>>::empty());
        let outcome = plan_rec(&self.tasks, name, &mut done, &mut stack);
        TaskPlan { steps: done, outcome }
    }
}

/// How a task is listed: its name, and for a detailed task its
/// description ("No description" when it has none).
#[derive(Debug, Clone)]
pub struct TaskLine {
    pub name: String,
    pub description: Option<String>,
}

/// The category a task is listed under: its own, else "General".
pub open spec fn category_of(t: TaskConfig) -> Seq<char> {
    match t {
        TaskConfig::Detailed { category: Some(c), .. } => c@,
        _ => "General"@,
    }
}

/// What the listing shows for the task `name`.
pub open spec fn line_of(name: Seq<char>, t: TaskConfig) -> (Seq<char>, Option<Seq<char>>) {
    match t {
        TaskConfig::Simple(_) => (name, None),
        TaskConfig::Detailed { description, .. } => (name, Some(match description {
            Some(d) => d@,
            None => "No description"@,
        })),
    }
}

/// What a listed line shows.
pub open spec fn task_line_view(l: TaskLine) -> (Seq<char>, Option<Seq<char>>) {
    (l.name@, match l.description { Some(d) => Some(d@), None => None })
}

/// The groups after adding `line` under `cat`: to the group of that
/// category if there is one, else as a new group at the end.
pub open spec fn add_to_group(
    groups: Seq<(Seq<char>, Seq<(Seq<char>, Option<Seq<char>>)>)>,
    cat: Seq<char>,
    line: (Seq<char>, Option<Seq<char>>),
) -> Seq<(Seq<char>, Seq<(Seq<char>, Option<Seq<char>>)>)> {
    if exists|i: int| 0 <= i < groups.len() && groups[i].0 == cat {
        let i = choose|i: int| 0 <= i < groups.len() && groups[i].0 == cat;
        groups.update(i, (cat, groups[i].1.push(line)))
    } else {
        groups.push((cat, seq![line]))
    }
}

/// The listing of `tasks`: categories in order of first appearance, each
/// with its tasks in table order.
pub open spec fn task_groups(tasks: Seq<(String, TaskConfig)>) -> Seq<(Seq<char>, Seq<(Seq<char>, Option<Seq<char>>)>)>
    decreases tasks.len(),
{
    if tasks.len() == 0 {
        Seq::empty()
    } else {
        add_to_group(task_groups(tasks.drop_last()), category_of(tasks.last().1), line_of(tasks.last().0@, tasks.last().1))
    }
}

/// The view of a listing.
pub open spec fn groups_view(groups: Seq<(String, Vec<TaskLine>)>) -> Seq<(Seq<char>, Seq<(Seq<char>, Option<Seq<char>>)>)> {
    groups.map_values(|g: (String, Vec<TaskLine>)| (g.0@, g.1@.map_values(|l: TaskLine| task_line_view(l))))
}

/// Whether category names are distinct in a listing.
pub open spec fn distinct_categories(groups: Seq<(Seq<char>, Seq<(Seq<char>, Option<Seq<char>>)>)>) -> bool {
    forall|i: int, j: int| 0 <= i < j < groups.len() ==> groups[i].0 != groups[j].0
}

proof fn lemma_groups_distinct(tasks: Seq<(String, TaskConfig)>)
    ensures
        distinct_categories(task_groups(tasks)),
    decreases tasks.len(),
{
    if tasks.len() > 0 {
        lemma_groups_distinct(tasks.drop_last());
    }
}

fn task_line(name: &String, t: &TaskConfig) -> (l: TaskLine)
    ensures
        task_line_view(l) == line_of(name@, *t),
{
    match t {
        TaskConfig::Simple(_) => TaskLine { name: name.clone(), description: None },
        TaskConfig::Detailed { description, .. } => TaskLine {
            name: name.clone(),
            description: Some(match description {
                Some(d) => d.clone(),
                None => "No description".to_owned(),
            }),
        },
    }
}

fn task_category(t: &TaskConfig) -> (c: String)
    ensures
        c@ == category_of(*t),
{
    match t {
        TaskConfig::Detailed { category: Some(c), .. } => c.clone(),
        _ => "General".to_owned(),
    }
}

fn find_group(groups: &Vec<(String, Vec<TaskLine>)>, cat: &str) -> (r: Option<usize>)
    ensures
        match r {
            Some(k) => k < groups@.len() && groups_view(groups@)[k as int].0 == cat@,
            None => forall|j: int| 0 <= j < groups@.len() ==> groups_view(groups@)[j].0 != cat@,
        },
{
    let mut k: usize = 0;
    while k < groups.len()
        invariant
            k <= groups@.len(),
            forall|j: int| 0 <= j < k ==> groups_view(groups@)[j].0 != cat@,
        decreases groups.len() - k,
    {
        if crate::text::str_eq(groups[k].0.as_str(), cat) {
            return Some(k);
        }
        k = k + 1;
    }
    None
}

/// The tasks of the configuration grouped for listing: categories in
/// order of first appearance, each with its tasks in table order.
pub fn list_tasks(config: &MontConfig) -> (groups: Vec<(String, Vec<TaskLine>)>)
    ensures
        groups_view(groups@) == task_groups(config.tasks@),
{
    let tasks = &config.tasks;
    let mut groups: Vec<(String, Vec<TaskLine>)> = Vec::new();
    let mut i: usize = 0;
    while i < tasks.len()
        invariant
            i <= tasks@.len(),
            groups_view(groups@) == task_groups(tasks@.take(i as int)),
        decreases tasks.len() - i,
    {
        let cat = task_category(&tasks[i].1);
        let line = task_line(&tasks[i].0, &tasks[i].1);
        let ghost g0 = groups_view(groups@);
        assert(tasks@.take(i + 1).drop_last() =~= tasks@.take(i as int));
        assert(tasks@.take(i + 1).last() == tasks@[i as int]);
        proof {
            lemma_groups_distinct(tasks@.take(i as int));
        }
        let found = find_group(&groups, cat.as_str());
        match found {
            Some(k) => {
                assert(g0[k as int].0 == cat@);
                proof {
                    let c = choose|j: int| 0 <= j < g0.len() && g0[j].0 == cat@;
                    assert(c == k as int);
                }
                let ghost gb = groups@;
                let ghost lines_before = groups@[k as int].1@;
                let mut entry = groups.remove(k);
                entry.1.push(line);
                let ghost new_entry = entry;
                assert(new_entry.1@ == lines_before.push(line));
                assert(new_entry.1@.map_values(|l: TaskLine| task_line_view(l)) =~= lines_before.map_values(
                    |l: TaskLine| task_line_view(l),
                ).push(task_line_view(line)));
                groups.insert(k, entry);
                assert(groups@ =~= gb.update(k as int, new_entry));
                assert(groups_view(groups@) =~= g0.update(k as int, (cat@, g0[k as int].1.push(task_line_view(line)))));
            },
            None => {
                assert(!exists|j: int| 0 <= j < g0.len() && g0[j].0 == cat@);
                let ghost before = groups@;
                let v = vec![line];
                assert(v@.map_values(|l: TaskLine| task_line_view(l)) =~= seq![task_line_view(line)]);
                groups.push((cat, v));
                assert(groups_view(groups@) =~= g0.push((cat@, seq![task_line_view(line)])));
            },
        }
        i = i + 1;
    }
    assert(tasks@.take(tasks@.len() as int) =~= tasks@);
    groups
}

/// The number of lines in a listing.
pub open spec fn total_lines(groups: Seq<(Seq<char>, Seq<(Seq<char>, Option<Seq<char>>)>)>) -> nat
    decreases groups.len(),
{
    if groups.len() == 0 {
        0
    } else {
        total_lines(groups.drop_last()) + groups.last().1.len()
    }
}

proof fn lemma_total_update(
    groups: Seq<(Seq<char>, Seq<(Seq<char>, Option<Seq<char>>)>)>,
    i: int,
    g: (Seq<char>, Seq<(Seq<char>, Option<Seq<char>>)>),
)
    requires
        0 <= i < groups.len(),
        g.1.len() == groups[i].1.len() + 1,
    ensures
        total_lines(groups.update(i, g)) == total_lines(groups) + 1,
    decreases groups.len(),
{
    let u = groups.update(i, g);
    if i == groups.len() - 1 {
        assert(u.drop_last() =~= groups.drop_last());
    } else {
        lemma_total_update(groups.drop_last(), i, g);
        assert(u.drop_last() =~= groups.drop_last().update(i, g));
    }
}

/// Listing the tasks shows each of them once: there are as many lines as
/// tasks.
pub proof fn law_listing_shows_every_task(tasks: Seq<(String, TaskConfig)>)
    ensures
        total_lines(task_groups(tasks)) == tasks.len(),
    decreases tasks.len(),
{
    if tasks.len() > 0 {
        let init = tasks.drop_last();
        law_listing_shows_every_task(init);
        let g = task_groups(init);
        let cat = category_of(tasks.last().1);
        let line = line_of(tasks.last().0@, tasks.last().1);
        assert(task_groups(tasks) == add_to_group(g, cat, line));
        if exists|i: int| 0 <= i < g.len() && g[i].0 == cat {
            let i = choose|i: int| 0 <= i < g.len() && g[i].0 == cat;
            lemma_groups_distinct(init);
            lemma_total_update(g, i, (cat, g[i].1.push(line)));
            assert(add_to_group(g, cat, line) == g.update(i, (cat, g[i].1.push(line))));
            assert(total_lines(task_groups(tasks)) == tasks.len());
        } else {
            let p = g.push((cat, seq![line]));
            assert(p.drop_last() =~= g);
            assert(total_lines(p) == total_lines(g) + 1);
            assert(add_to_group(g, cat, line) == p);
            assert(total_lines(task_groups(tasks)) == tasks.len());
        }
    }
}

} // verus!
