//! Benchmark parameters: a range of values over which a workload is measured.
use vstd::prelude::*;
use core::ops::RangeInclusive;

verus! {

/// `RangeInclusive::start`: the lower bound the range was built with.
pub assume_specification<Idx>[ RangeInclusive::<Idx>::start ](r: &RangeInclusive<Idx>) -> (res: &Idx)
    ensures
        *res == r@.start,
;

/// `RangeInclusive::end`: the upper bound the range was built with.
pub assume_specification<Idx>[ RangeInclusive::<Idx>::end ](r: &RangeInclusive<Idx>) -> (res: &Idx)
    ensures
        *res == r@.end,
;

/// How many values lie in `start..=end` when stepping by `step`.
pub open spec fn value_count(start: int, end: int, step: int) -> nat {
    if start > end {
        0
    } else if step <= 0 {
        1
    } else {
        ((end - start) / step + 1) as nat
    }
}

/// The values `start, start + step, ...` that do not exceed `end`; a zero
/// step yields the start alone.
pub open spec fn stepped_values(start: int, end: int, step: int) -> Seq<int> {
    Seq::new(value_count(start, end, step), |i: int| start + i * step)
}

/// Whether stepping past the last value would exceed `u32::MAX`: the
/// enumeration cannot be carried out in `u32` arithmetic then.
pub open spec fn stepping_overflows(start: int, end: int, step: int) -> bool {
    step > 0 && start <= end && start + value_count(start, end, step) * step > u32::MAX
}

/// A benchmark parameter with a range of values.
#[derive(Debug)]
pub struct Parameter {
    pub name: String,
    pub range: RangeInclusive<u32>,
    pub step: u32,
}

impl Clone for Parameter {
    /// A parameter with the same name, bounds and step.
    fn clone(&self) -> (p: Self)
        ensures
            p.name@ == self.name@,
            p.range@.start == self.range@.start,
            p.range@.end == self.range@.end,
            p.step == self.step,
    {
        Parameter {
            name: self.name.clone(),
            range: RangeInclusive::new(*self.range.start(), *self.range.end()),
            step: self.step,
        }
    }
}

impl Parameter {
    /// The lower bound of the range.
    pub open spec fn start_spec(&self) -> int {
        self.range@.start as int
    }

    /// The upper bound of the range.
    pub open spec fn end_spec(&self) -> int {
        self.range@.end as int
    }

    /// The values that `values` enumerates.
    pub open spec fn values_spec(&self) -> Seq<int> {
        stepped_values(self.start_spec(), self.end_spec(), self.step as int)
    }

    /// Whether `values` can enumerate the range without overflow.
    pub open spec fn enumerable(&self) -> bool {
        !stepping_overflows(self.start_spec(), self.end_spec(), self.step as int)
    }

    /// A parameter over `range` with step 1.
    pub fn new(name: &str, range: RangeInclusive<u32>) -> (p: Self)
        ensures
            p.name@ == name@,
            p.range == range,
            p.step == 1,
    {
        Parameter { name: name.to_owned(), range, step: 1 }
    }

    /// The same parameter with the given step.
    pub fn with_step(self, step: u32) -> (p: Self)
        ensures
            p.name == self.name,
            p.range == self.range,
            p.step == step,
    {
        let mut p = self;
        p.step = step;
        p
    }

    /// Whether `values` can enumerate the range: stepping past the last
    /// value stays within `u32`.
    pub fn can_enumerate(&self) -> (b: bool)
        ensures
            b == self.enumerable(),
    {
        let start = *self.range.start();
        let end = *self.range.end();
        let step = self.step;
        if step == 0 || start > end {
            return true;
        }
        let count: u64 = ((end - start) / step) as u64 + 1;
        proof {
            lemma_count_bounds(start as int, end as int, step as int);
            assert(count == value_count(start as int, end as int, step as int));
            assert(count * step <= (u32::MAX as int + 1) * (u32::MAX as int)) by (nonlinear_arith)
                requires count <= u32::MAX as int + 1, step <= u32::MAX;
        }
        let last: u128 = start as u128 + (count as u128) * (step as u128);
        last <= u32::MAX as u128
    }

    /// The values of the range: `start, start + step, ...` up to `end`.
    pub fn values(&self) -> (vals: Vec<u32>)
        requires
            self.enumerable(),
        ensures
            vals@.len() == self.values_spec().len(),
            forall|i: int| 0 <= i < vals@.len() ==> vals@[i] as int == #[trigger] self.values_spec()[i],
    {
        let start = *self.range.start();
        let end = *self.range.end();
        let step = self.step;
        let ghost count = value_count(start as int, end as int, step as int);
        let mut vals: Vec<u32> = Vec::new();
        let mut curr = start;
        if curr > end {
            return vals;
        }
        if step == 0 {
            vals.push(curr);
            return vals;
        }
        proof {
            lemma_count_bounds(start as int, end as int, step as int);
        }
        while curr <= end
            invariant
                step > 0,
                start <= end,
                count == value_count(start as int, end as int, step as int),
                start + count * step <= u32::MAX,
                start + (count - 1) * step <= end < start + count * step,
                vals@.len() <= count,
                curr as int == start + vals@.len() * step,
                forall|i: int| 0 <= i < vals@.len() ==> vals@[i] as int == start + i * step,
            decreases count - vals@.len(),
        {
            proof {
                lemma_next_in_range(start as int, end as int, step as int, vals@.len() as int, count as int);
            }
            vals.push(curr);
            curr = curr + step;
        }
        proof {
            lemma_exit_count(start as int, end as int, step as int, vals@.len() as int, count as int);
        }
        vals
    }
}

proof fn lemma_count_bounds(start: int, end: int, step: int)
    requires
        step > 0,
        start <= end,
    ensures
        value_count(start, end, step) >= 1,
        start + (value_count(start, end, step) - 1) * step <= end,
        end < start + value_count(start, end, step) * step,
{
    let q = (end - start) / step;
    let r = (end - start) % step;
    vstd::arithmetic::div_mod::lemma_fundamental_div_mod(end - start, step);
    assert(q >= 0) by {
        vstd::arithmetic::div_mod::lemma_div_pos_is_pos(end - start, step);
    }
    assert(0 <= r < step) by {
        vstd::arithmetic::div_mod::lemma_mod_bound(end - start, step);
    }
    assert(start + q * step <= end) by (nonlinear_arith)
        requires end - start == step * q + r, 0 <= r;
    assert(end < start + (q + 1) * step) by (nonlinear_arith)
        requires end - start == step * q + r, r < step;
}

proof fn lemma_next_in_range(start: int, end: int, step: int, k: int, count: int)
    requires
        step > 0,
        0 <= k,
        start + k * step <= end,
        end < start + count * step,
    ensures
        k < count,
        (k + 1) * step == k * step + step,
        (k + 1) * step <= count * step,
{
    assert(k < count) by (nonlinear_arith)
        requires step > 0, start + k * step <= end, end < start + count * step;
    assert((k + 1) * step == k * step + step) by (nonlinear_arith);
    assert((k + 1) * step <= count * step) by (nonlinear_arith)
        requires step > 0, k < count;
}

proof fn lemma_exit_count(start: int, end: int, step: int, k: int, count: int)
    requires
        step > 0,
        0 <= k <= count,
        start + (count - 1) * step <= end,
        start + k * step > end,
    ensures
        k == count,
{
    assert(k >= count) by (nonlinear_arith)
        requires step > 0, start + (count - 1) * step <= end, start + k * step > end;
}

/// The enumerated values start at the lower bound, climb by the step and
/// never pass the upper bound; a non-empty range yields at least one value.
pub proof fn law_values_in_range(p: Parameter)
    ensures
        forall|i: int| 0 <= i < p.values_spec().len() ==>
            p.start_spec() <= #[trigger] p.values_spec()[i] <= p.end_spec(),
        p.start_spec() <= p.end_spec() ==> p.values_spec().len() >= 1 && p.values_spec()[0] == p.start_spec(),
        p.step > 0 ==> forall|i: int| 0 <= i < p.values_spec().len() - 1 ==>
            #[trigger] p.values_spec()[i + 1] == p.values_spec()[i] + p.step,
{
    let start = p.start_spec();
    let end = p.end_spec();
    let step = p.step as int;
    if start <= end && step > 0 {
        lemma_count_bounds(start, end, step);
        let count = value_count(start, end, step) as int;
        assert forall|i: int| 0 <= i < p.values_spec().len() implies
            start <= #[trigger] p.values_spec()[i] <= end by {
            assert(p.values_spec()[i] == start + i * step);
            assert(0 <= i * step <= (count - 1) * step) by (nonlinear_arith)
                requires 0 <= i < count, step > 0;
        }
        assert forall|i: int| 0 <= i < p.values_spec().len() - 1 implies
            #[trigger] p.values_spec()[i + 1] == p.values_spec()[i] + p.step by {
            assert((i + 1) * step == i * step + step) by (nonlinear_arith);
        }
    } else if start <= end {
        assert forall|i: int| 0 <= i < p.values_spec().len() implies
            start <= #[trigger] p.values_spec()[i] <= end by {
            assert(i * step == 0) by (nonlinear_arith)
                requires step == 0;
        }
        assert(0 * step == 0);
    }
}

/// No value of the range is left out: an empty range gives no value, a
/// zero step gives the start alone, and otherwise the values number
/// `(end - start) / step + 1` and one more step past the last would pass
/// the end.
pub proof fn law_values_complete(p: Parameter)
    ensures
        p.start_spec() > p.end_spec() ==> p.values_spec().len() == 0,
        p.start_spec() <= p.end_spec() && p.step == 0 ==> p.values_spec().len() == 1,
        p.start_spec() <= p.end_spec() && p.step > 0 ==> {
            &&& p.values_spec().len() == (p.end_spec() - p.start_spec()) / (p.step as int) + 1
            &&& p.values_spec().last() + p.step > p.end_spec()
        },
{
    let start = p.start_spec();
    let end = p.end_spec();
    let step = p.step as int;
    if start <= end && step > 0 {
        lemma_count_bounds(start, end, step);
        let n = value_count(start, end, step) as int;
        assert(p.values_spec().last() == start + (n - 1) * step);
        assert((n - 1) * step + step == n * step) by (nonlinear_arith);
    }
}

} // verus!
