//! Linear cost model used to turn benchmark results into application logic.
use vstd::prelude::*;

verus! {

/// `min(v, u64::MAX)`: the value a saturating `u64` computation yields.
pub open spec fn saturate_u64(v: int) -> u64 {
    if v > u64::MAX { u64::MAX } else { v as u64 }
}

/// The computational cost of an operation, modelled as `base + slope * n`.
#[derive(Debug, Clone, Copy, PartialEq, Eq, Structural)]
pub struct Weight {
    /// Fixed overhead in nanoseconds.
    pub base_ns: u64,
    /// Cost per unit of the parameter in nanoseconds.
    pub slope_ns: u64,
}

impl Weight {
    /// The exact (unbounded) cost of `n` units.
    pub open spec fn exact_cost(self, n: int) -> int {
        self.base_ns + self.slope_ns * n
    }

    /// Creates a new `Weight` from nanosecond values.
    pub fn from_ns(base_ns: u64, slope_ns: u64) -> (w: Self)
        ensures
            w.base_ns == base_ns,
            w.slope_ns == slope_ns,
    {
        Weight { base_ns, slope_ns }
    }

    /// Total cost for the parameter value `n`, saturating at `u64::MAX`.
    pub fn calc(&self, n: u32) -> (cost: u64)
        ensures
            cost == saturate_u64(self.exact_cost(n as int)),
    {
        let prod: u64 = match self.slope_ns.checked_mul(n as u64) {
            Some(p) => p,
            None => u64::MAX,
        };
        proof {
            assert(self.slope_ns * n >= 0) by (nonlinear_arith);
        }
        self.base_ns.saturating_add(prod)
    }

    /// The base overhead in nanoseconds.
    pub fn base(&self) -> (b: u64)
        ensures
            b == self.base_ns,
    {
        self.base_ns
    }

    /// The slope (cost per unit) in nanoseconds.
    pub fn slope(&self) -> (s: u64)
        ensures
            s == self.slope_ns,
    {
        self.slope_ns
    }
}

/// With no units the cost is the base overhead.
pub proof fn law_calc_zero_is_base(w: Weight)
    ensures
        saturate_u64(w.exact_cost(0)) == w.base_ns,
{
}

/// The cost never decreases as the parameter grows.
pub proof fn law_calc_monotone(w: Weight, n1: nat, n2: nat)
    requires
        n1 <= n2,
    ensures
        saturate_u64(w.exact_cost(n1 as int)) <= saturate_u64(w.exact_cost(n2 as int)),
{
    assert(w.slope_ns * n1 <= w.slope_ns * n2) by (nonlinear_arith)
        requires n1 <= n2;
}

} // verus!
