//! Monte Carlo simulation of a loan portfolio and stress testing under
//! several economic scenarios.
use vstd::prelude::*;
use vstd::arithmetic::div_mod::{lemma_div_is_ordered, lemma_div_multiples_vanish};
use vstd::relations::sorted_by;

use crate::common::{ContractError, sat_add, sat_sub, sat_mul, sat_mul_u128, div_trunc, fits_i128, saturating_add_i128, saturating_sub_i128, saturating_mul_i128, saturating_mul_u128, div_i128};

verus! {

/// Default number of Monte Carlo simulations.
pub const DEFAULT_SIMULATION_COUNT: u32 = 10_000;

/// Confidence level of the Value at Risk, in basis points (95%).
pub const VAR_CONFIDENCE_LEVEL_BPS: u64 = 9_500;

/// Confidence level of the Expected Shortfall, in basis points (95%).
pub const CVAR_CONFIDENCE_LEVEL_BPS: u64 = 9_500;

/// Multiplier of the linear congruential generator.
pub const LCG_MULTIPLIER: u64 = 6364136223846793005;

/// Increment of the linear congruential generator.
pub const LCG_INCREMENT: u64 = 1442695040888963407;

/// Number of loans that one simulated portfolio is split into.
pub const LOANS_PER_PORTFOLIO: u32 = 100;

/// Simulation parameters for Monte Carlo analysis.
#[derive(Clone, Copy, Debug)]
pub struct SimulationParams {
    /// Default rate (probability of default) in basis points (0-10000)
    pub default_rate_bps: u32,
    /// Interest rate for loans in basis points (0-10000)
    pub interest_rate_bps: u32,
    /// Recovery rate (share of a defaulted loan recovered) in basis points (0-10000)
    pub recovery_rate_bps: u32,
    /// Number of simulations to run
    pub simulation_count: u32,
    /// Initial portfolio value
    pub portfolio_value: i128,
}

/// Result of one simulated period of the portfolio.
#[derive(Clone, Copy, Debug)]
pub struct SimulationResult {
    /// Portfolio value at end of simulation period
    pub end_value: i128,
    /// Total interest collected
    pub interest_collected: i128,
    /// Total losses from defaults
    pub default_losses: i128,
    /// Number of defaulted loans
    pub defaults_count: u32,
}

/// Summary statistics of a Monte Carlo run.
#[derive(Clone, Copy, Debug)]
pub struct PortfolioStressTestResult {
    /// Value at Risk at 95% confidence
    pub var_95: i128,
    /// Expected Shortfall (CVaR) at 95% confidence
    pub cvar_95: i128,
    /// Mean portfolio value
    pub mean_value: i128,
    /// Minimum portfolio value observed
    pub min_value: i128,
    /// Maximum portfolio value observed
    pub max_value: i128,
    /// Standard deviation of outcomes
    pub std_dev: i128,
    /// Probability of portfolio loss, in basis points (0-10000)
    pub loss_probability: u32,
    /// Maximum loss scenario
    pub max_loss: i128,
    /// Simulation count used
    pub simulation_count: u32,
}

// ---------------------------------------------------------------------------
// Pseudo-random numbers
// ---------------------------------------------------------------------------

/// One step of the linear congruential generator: `s * A + C mod 2^64`.
pub open spec fn lcg_step(s: u64) -> u64 {
    ((s as int * LCG_MULTIPLIER as int + LCG_INCREMENT as int) % 0x1_0000_0000_0000_0000) as u64
}

/// The number drawn from a generator state: its upper 32 bits.
pub open spec fn lcg_output(s: u64) -> u32 {
    (s as int / 0x1_0000_0000) as u32
}

/// Pseudo-random number generator using the linear congruential method.
/// It is deterministic: the same seed always gives the same numbers.
pub struct SimpleRng {
    state: u64,
}

impl View for SimpleRng {
    type V = u64;

    /// The generator's internal state.
    closed spec fn view(&self) -> u64 {
        self.state
    }
}

fn lcg_next(s: u64) -> (r: u64)
    ensures
        r == lcg_step(s),
{
    let m = s.wrapping_mul(LCG_MULTIPLIER);
    let r = m.wrapping_add(LCG_INCREMENT);
    proof {
        let big: int = 0x1_0000_0000_0000_0000;
        let p = s as int * LCG_MULTIPLIER as int;
        assert(p >= 0) by (nonlinear_arith)
            requires p == s as int * LCG_MULTIPLIER as int;
        assert(m as int == p % big);
        vstd::arithmetic::div_mod::lemma_add_mod_noop(p, LCG_INCREMENT as int, big);
        vstd::arithmetic::div_mod::lemma_mod_twice(LCG_INCREMENT as int, big);
        vstd::arithmetic::div_mod::lemma_small_mod(LCG_INCREMENT as nat, big as nat);
        if m as int + LCG_INCREMENT as int > u64::MAX {
            vstd::arithmetic::div_mod::lemma_mod_add_multiples_vanish(
                m as int + LCG_INCREMENT as int - big, big,
            );
            vstd::arithmetic::div_mod::lemma_small_mod(
                (m as int + LCG_INCREMENT as int - big) as nat, big as nat,
            );
        } else {
            vstd::arithmetic::div_mod::lemma_small_mod(
                (m as int + LCG_INCREMENT as int) as nat, big as nat,
            );
        }
    }
    r
}

impl SimpleRng {
    /// Initialize the generator with a seed.
    pub fn new(seed: u64) -> (rng: Self)
        ensures
            rng@ == lcg_step(seed),
    {
        SimpleRng { state: lcg_next(seed) }
    }

    /// Advance the generator and return the upper 32 bits of its new state.
    pub fn next_u32(&mut self) -> (r: u32)
        ensures
            final(self)@ == lcg_step(old(self)@),
            r == lcg_output(final(self)@),
    {
        self.state = lcg_next(self.state);
        let s = self.state;
        let r = (s >> 32u64) as u32;
        assert(r == (s as int / 0x1_0000_0000) as u32) by (bit_vector)
            requires r == (s >> 32u64) as u32;
        r
    }

    /// Draw the next number, widened to `u64` (a value below `2^32`).
    pub fn next_f64(&mut self) -> (r: u64)
        ensures
            final(self)@ == lcg_step(old(self)@),
            r == lcg_output(final(self)@) as u64,
    {
        self.next_u32() as u64
    }
}

// ---------------------------------------------------------------------------
// Integer square root
// ---------------------------------------------------------------------------

proof fn lemma_newton_step_stays_above(n: int, x: int, s: int)
    requires
        x >= 1,
        s >= 0,
        s * s <= n,
    ensures
        (x + n / x) / 2 >= s,
{
    let q = n / x;
    vstd::arithmetic::div_mod::lemma_fundamental_div_mod(n, x);
    assert(n < (q + 1) * x) by (nonlinear_arith)
        requires n == x * q + n % x, 0 <= n % x < x;
    if x + q < 2 * s {
        assert(q + 1 <= 2 * s - x);
        assert((q + 1) * x <= (2 * s - x) * x) by (nonlinear_arith)
            requires q + 1 <= 2 * s - x, x >= 1;
        assert((2 * s - x) * x <= s * s) by (nonlinear_arith);
        assert(false);
    }
}

proof fn lemma_newton_step_descends(n: int, x: int)
    requires
        x >= 1,
        x * x > n,
        n >= 0,
    ensures
        (x + n / x) / 2 < x,
{
    vstd::arithmetic::div_mod::lemma_fundamental_div_mod(n, x);
    assert(n / x < x) by (nonlinear_arith)
        requires n == x * (n / x) + n % x, 0 <= n % x < x, x * x > n, x >= 1;
}

proof fn lemma_newton_step_bounded(n: int, x: int)
    requires
        1 <= x <= n,
    ensures
        x + n / x <= n + 1,
        n / x >= 0,
{
    vstd::arithmetic::div_mod::lemma_fundamental_div_mod(n, x);
    assert(x + n / x <= n + 1) by (nonlinear_arith)
        requires n == x * (n / x) + n % x, 0 <= n % x < x, 1 <= x <= n;
}

/// Integer square root by Newton's method: the largest `r` with `r * r <= n`.
pub fn integer_sqrt(n: u128) -> (r: u128)
    requires
        n < u128::MAX,
    ensures
        r * r <= n < (r + 1) * (r + 1),
{
    if n < 2 {
        assert(n * n <= n < (n + 1) * (n + 1)) by (nonlinear_arith)
            requires n < 2;
        return n;
    }
    let ghost s: int = lemma_floor_sqrt(n as int);
    let mut x0 = n;
    let mut x1 = (x0 + 1) / 2;
    proof {
        vstd::arithmetic::div_mod::lemma_div_basics(n as int);
        lemma_newton_step_stays_above(n as int, n as int, s);
    }
    while x1 < x0
        invariant
            2 <= n < u128::MAX,
            0 <= s,
            s * s <= n < (s + 1) * (s + 1),
            1 <= x0 <= n,
            x0 >= s,
            x1 == (x0 + n / x0) / 2,
            x1 >= s,
        decreases x0,
    {
        x0 = x1;
        assert(x0 >= 1) by {
            if x0 == 0 {
                assert((s + 1) * (s + 1) == 1) by (nonlinear_arith)
                    requires s == 0;
            }
        }
        proof {
            lemma_newton_step_bounded(n as int, x0 as int);
            lemma_newton_step_stays_above(n as int, x0 as int, s);
        }
        x1 = (x0 + n / x0) / 2;
    }
    proof {
        if x0 as int * x0 as int > n as int {
            lemma_newton_step_descends(n as int, x0 as int);
        }
        // x0 is at least the floor root and its square does not exceed n
        if x0 > s {
            assert((s + 1) * (s + 1) <= x0 * x0) by (nonlinear_arith)
                requires x0 >= s + 1, s >= 0;
        }
    }
    x0
}

proof fn lemma_floor_sqrt(n: int) -> (s: int)
    requires
        n >= 0,
    ensures
        0 <= s,
        s * s <= n < (s + 1) * (s + 1),
    decreases n,
{
    if n == 0 {
        0
    } else {
        let s = lemma_floor_sqrt(n - 1);
        if n < (s + 1) * (s + 1) {
            s
        } else {
            assert(n < (s + 2) * (s + 2)) by (nonlinear_arith)
                requires n == (s + 1) * (s + 1), s >= 0;
            s + 1
        }
    }
}

// ---------------------------------------------------------------------------
// One simulated period
// ---------------------------------------------------------------------------

/// Value of each of the loans that a portfolio is split into.
pub open spec fn loan_value(params: SimulationParams) -> i128 {
    div_trunc(params.portfolio_value as int, LOANS_PER_PORTFOLIO as int) as i128
}

/// Number of values a 32-bit draw can take.
pub const DRAW_RANGE: u64 = 4_294_967_296;

/// A loan defaults when the number drawn for it (uniform over the 32-bit
/// values) is below this threshold, so with a probability of the default
/// rate: every loan defaults at 10000 basis points, none at 0.
pub open spec fn default_threshold(params: SimulationParams) -> u64 {
    (params.default_rate_bps as int * DRAW_RANGE / 10_000) as u64
}

/// Amount recovered from one defaulted loan.
pub open spec fn recovery_amount(params: SimulationParams) -> int {
    sat_mul_u128(loan_value(params) as u128 as int, params.recovery_rate_bps as int) as int
        / 10_000
}

/// Interest paid by one performing loan.
pub open spec fn interest_amount(params: SimulationParams) -> int {
    sat_mul_u128(loan_value(params) as u128 as int, params.interest_rate_bps as int) as int
        / 10_000
}

/// The outcome so far after one more loan, given the number drawn for it.
pub open spec fn loan_outcome(
    params: SimulationParams,
    acc: SimulationResult,
    draw: u64,
) -> SimulationResult {
    if draw < default_threshold(params) {
        let loss = sat_sub(loan_value(params) as int, recovery_amount(params));
        SimulationResult {
            end_value: sat_sub(acc.end_value as int, loss as int),
            interest_collected: acc.interest_collected,
            default_losses: sat_add(acc.default_losses as int, loss as int),
            defaults_count: if acc.defaults_count == u32::MAX {
                u32::MAX
            } else {
                (acc.defaults_count + 1) as u32
            },
        }
    } else {
        let interest = interest_amount(params);
        SimulationResult {
            end_value: sat_add(acc.end_value as int, interest),
            interest_collected: sat_add(acc.interest_collected as int, interest),
            default_losses: acc.default_losses,
            defaults_count: acc.defaults_count,
        }
    }
}

/// The outcome of the first `k` loans of a period, the generator starting
/// from `state`, together with the generator's state afterwards.
pub open spec fn period_after(params: SimulationParams, state: u64, k: nat) -> (
    SimulationResult,
    u64,
)
    decreases k,
{
    if k == 0 {
        (
            SimulationResult {
                end_value: params.portfolio_value,
                interest_collected: 0,
                default_losses: 0,
                defaults_count: 0,
            },
            state,
        )
    } else {
        let (acc, s) = period_after(params, state, (k - 1) as nat);
        let next = lcg_step(s);
        (loan_outcome(params, acc, lcg_output(next) as u64), next)
    }
}

/// One simulated period of the whole portfolio.
pub open spec fn simulated_period(params: SimulationParams, state: u64) -> (SimulationResult, u64) {
    period_after(params, state, LOANS_PER_PORTFOLIO as nat)
}

/// Simulate a single period for the portfolio: each of its loans either
/// defaults, losing what is not recovered, or pays interest.
pub fn simulate_single_period(params: &SimulationParams, rng: &mut SimpleRng) -> (r:
    SimulationResult)
    ensures
        (r, final(rng)@) == simulated_period(*params, old(rng)@),
{
    assert(params.default_rate_bps as int * DRAW_RANGE <= u64::MAX) by (nonlinear_arith)
        requires params.default_rate_bps <= u32::MAX;
    let default_threshold: u64 = (params.default_rate_bps as u64 * DRAW_RANGE) / 10_000;

    let mut end_value: i128 = params.portfolio_value;
    let mut interest_collected: i128 = 0;
    let mut default_losses: i128 = 0;
    let mut defaults: u32 = 0;

    let loan_count: u32 = LOANS_PER_PORTFOLIO;
    let loan_value: i128 = div_i128(params.portfolio_value, loan_count as i128);

    let mut i: u32 = 0;
    while i < loan_count
        invariant
            loan_count == LOANS_PER_PORTFOLIO,
            i <= loan_count,
            default_threshold == crate::economic_simulation::default_threshold(*params),
            loan_value == crate::economic_simulation::loan_value(*params),
            (
                SimulationResult {
                    end_value,
                    interest_collected,
                    default_losses,
                    defaults_count: defaults,
                },
                rng@,
            ) == period_after(*params, old(rng)@, i as nat),
        decreases loan_count - i,
    {
        let random_val = rng.next_f64();

        if random_val < default_threshold {
            defaults = defaults.saturating_add(1);
            let recovery = saturating_mul_u128(loan_value as u128, params.recovery_rate_bps as u128)
                / 10_000;
            let loss = saturating_sub_i128(loan_value, recovery as i128);
            default_losses = saturating_add_i128(default_losses, loss);
            end_value = saturating_sub_i128(end_value, loss);
        } else {
            let interest = saturating_mul_u128(loan_value as u128, params.interest_rate_bps as u128)
                / 10_000;
            interest_collected = saturating_add_i128(interest_collected, interest as i128);
            end_value = saturating_add_i128(end_value, interest as i128);
        }
        i = i + 1;
    }

    SimulationResult { end_value, interest_collected, default_losses, defaults_count: defaults }
}

// ---------------------------------------------------------------------------
// Risk metrics
// ---------------------------------------------------------------------------

/// The order in which outcomes are ranked.
pub open spec fn le_i128() -> spec_fn(i128, i128) -> bool {
    |a: i128, b: i128| a <= b
}

/// The outcomes in ascending order.
pub open spec fn ascending(s: Seq<i128>) -> Seq<i128> {
    s.sort_by(le_i128())
}

/// Index of the outcome at the edge of the tail below a confidence level:
/// `n * (100% - confidence)`, rounded down.
pub open spec fn tail_index(n: nat, confidence_bps: u64) -> int {
    (n * (10_000 - confidence_bps)) / 10_000
}

/// Sum of the outcomes, each addition saturating, in order.
pub open spec fn sat_sum(s: Seq<i128>) -> i128
    decreases s.len(),
{
    if s.len() == 0 {
        0
    } else {
        sat_add(sat_sum(s.drop_last()) as int, s.last() as int)
    }
}

/// Mean of the outcomes: their saturating sum divided by their number.
pub open spec fn mean_of(s: Seq<i128>) -> i128 {
    div_trunc(sat_sum(s) as int, s.len() as int) as i128
}

/// Saturating sum of the squared deviations from `m`.
pub open spec fn sq_dev_sum(s: Seq<i128>, m: i128) -> i128
    decreases s.len(),
{
    if s.len() == 0 {
        0
    } else {
        let d = s.last() - m;
        sat_add(sq_dev_sum(s.drop_last(), m) as int, sat_mul(d, d) as int)
    }
}

/// Every outcome's deviation from the mean is an `i128`.
pub open spec fn deviations_fit(s: Seq<i128>) -> bool {
    forall|i: int| 0 <= i < s.len() ==> fits_i128(#[trigger] s[i] - mean_of(s))
}

/// `r` is the integer square root of `n`.
pub open spec fn is_floor_sqrt(n: int, r: int) -> bool {
    0 <= r && r * r <= n && n < (r + 1) * (r + 1)
}

/// The integer square root of `n`.
pub open spec fn floor_sqrt(n: int) -> int {
    choose|r: int| is_floor_sqrt(n, r)
}

/// Variance of the outcomes (saturating sum of squared deviations over their number).
pub open spec fn variance_of(s: Seq<i128>) -> i128 {
    div_trunc(sq_dev_sum(s, mean_of(s)) as int, s.len() as int) as i128
}

/// Standard deviation of the outcomes: the integer square root of their variance.
pub open spec fn std_dev_of(s: Seq<i128>) -> i128 {
    if variance_of(s) > 0 {
        floor_sqrt(variance_of(s) as int) as i128
    } else {
        0
    }
}

/// Risk metrics of a non-empty list of outcomes.
pub open spec fn portfolio_metrics(
    s: Seq<i128>,
    params: SimulationParams,
    losses_count: u32,
) -> PortfolioStressTestResult {
    let t = ascending(s);
    let k = tail_index(s.len(), CVAR_CONFIDENCE_LEVEL_BPS);
    PortfolioStressTestResult {
        var_95: t[tail_index(s.len(), VAR_CONFIDENCE_LEVEL_BPS)],
        cvar_95: div_trunc(sat_sum(t.take(k + 1)) as int, k + 1) as i128,
        mean_value: mean_of(s),
        min_value: t[0],
        max_value: t[s.len() - 1],
        std_dev: std_dev_of(s),
        loss_probability: (losses_count as int * 10_000 / params.simulation_count as int) as u32,
        max_loss: sat_sub(t[0] as int, params.portfolio_value as int),
        simulation_count: params.simulation_count,
    }
}

proof fn lemma_floor_sqrt_unique(n: int, r: int)
    requires
        is_floor_sqrt(n, r),
    ensures
        floor_sqrt(n) == r,
{
    let q = floor_sqrt(n);
    assert(is_floor_sqrt(n, q));
    if q < r {
        assert((q + 1) * (q + 1) <= r * r) by (nonlinear_arith)
            requires 0 <= q, q + 1 <= r;
    }
    if r < q {
        assert((r + 1) * (r + 1) <= q * q) by (nonlinear_arith)
            requires 0 <= r, r + 1 <= q;
    }
}

proof fn lemma_tail_index(n: nat)
    ensures
        tail_index(n, VAR_CONFIDENCE_LEVEL_BPS) == n / 20,
        tail_index(n, CVAR_CONFIDENCE_LEVEL_BPS) == n / 20,
{
    let q = n as int / 20;
    let r = n as int % 20;
    vstd::arithmetic::div_mod::lemma_fundamental_div_mod(n as int, 20);
    vstd::arithmetic::div_mod::lemma_fundamental_div_mod_converse(n as int * 500, 10_000, q, 500 * r);
}

proof fn lemma_le_i128_total()
    ensures
        vstd::relations::total_ordering(le_i128()),
{
}

/// Saturating sum of the first `count` values of `v`.
fn sum_prefix(v: &Vec<i128>, count: usize) -> (r: i128)
    requires
        count <= v.len(),
    ensures
        r == sat_sum(v@.take(count as int)),
{
    let mut acc: i128 = 0;
    let mut i: usize = 0;
    while i < count
        invariant
            count <= v.len(),
            i <= count,
            acc == sat_sum(v@.take(i as int)),
        decreases count - i,
    {
        assert(v@.take(i as int + 1).drop_last() =~= v@.take(i as int));
        acc = saturating_add_i128(acc, v[i]);
        i = i + 1;
    }
    acc
}

/// Saturating sum of the squared deviations of `v` from `m`.
fn sum_squared_deviations(v: &Vec<i128>, m: i128) -> (r: i128)
    requires
        forall|i: int| 0 <= i < v@.len() ==> fits_i128(#[trigger] v@[i] - m),
    ensures
        r == sq_dev_sum(v@, m),
{
    let mut acc: i128 = 0;
    let mut i: usize = 0;
    while i < v.len()
        invariant
            forall|i: int| 0 <= i < v@.len() ==> fits_i128(#[trigger] v@[i] - m),
            i <= v.len(),
            acc == sq_dev_sum(v@.take(i as int), m),
        decreases v.len() - i,
    {
        assert(v@.take(i as int + 1).drop_last() =~= v@.take(i as int));
        let x = v[i];
        assert(fits_i128(v@[i as int] - m));
        let diff = x - m;
        acc = saturating_add_i128(acc, saturating_mul_i128(diff, diff));
        i = i + 1;
    }
    assert(v@.take(v@.len() as int) =~= v@);
    acc
}

/// Sort the values ascending, exchanging each value with any smaller one found after it.
fn sort_ascending(v: &mut Vec<i128>)
    ensures
        final(v)@ == ascending(old(v)@),
{
    broadcast use vstd::multiset::group_multiset_axioms, vstd::seq_lib::group_to_multiset_ensures;

    let n = v.len();
    let ghost orig = v@;
    let mut i: usize = 0;
    while i < n
        invariant
            n == v.len(),
            i <= n,
            v@.to_multiset() == orig.to_multiset(),
            forall|a: int, b: int| 0 <= a < i && a < b < n ==> v@[a] <= v@[b],
        decreases n - i,
    {
        let mut j: usize = i + 1;
        while j < n
            invariant
                n == v.len(),
                i < n,
                i + 1 <= j <= n,
                v@.to_multiset() == orig.to_multiset(),
                forall|a: int, b: int| 0 <= a < i && a < b < n ==> v@[a] <= v@[b],
                forall|b: int| i < b < j ==> v@[i as int] <= v@[b],
            decreases n - j,
        {
            if v[i] > v[j] {
                let vi = v[i];
                let vj = v[j];
                let ghost before = v@;
                v.set(i, vj);
                v.set(j, vi);
                proof {
                    let mid = before.update(i as int, vj);
                    assert(v@ == mid.update(j as int, vi));
                    assert(mid[j as int] == vj);
                    vstd::seq_lib::to_multiset_update(before, i as int, vj);
                    vstd::seq_lib::to_multiset_update(mid, j as int, vi);
                    assert(mid.to_multiset() == before.to_multiset().insert(vj).remove(vi));
                    assert(v@.to_multiset() == mid.to_multiset().insert(vi).remove(vj));
                    assert(before[i as int] == vi);
                    vstd::seq_lib::to_multiset_contains(before, vi);
                    assert(before.to_multiset().count(vi) > 0);
                    assert(v@.to_multiset() =~= before.to_multiset());
                }
            }
            j = j + 1;
        }
        i = i + 1;
    }
    proof {
        lemma_le_i128_total();
        orig.lemma_sort_by_ensures(le_i128());
        assert(sorted_by(v@, le_i128()));
        vstd::seq_lib::lemma_sorted_unique(v@, ascending(orig), le_i128());
    }
}

/// A copy of the values in ascending order.
fn sorted_copy(v: &Vec<i128>) -> (r: Vec<i128>)
    ensures
        r@ == ascending(v@),
{
    let mut out: Vec<i128> = Vec::new();
    let mut i: usize = 0;
    while i < v.len()
        invariant
            i <= v.len(),
            out@ == v@.take(i as int),
        decreases v.len() - i,
    {
        out.push(v[i]);
        i = i + 1;
    }
    assert(v@.take(v@.len() as int) =~= v@);
    sort_ascending(&mut out);
    out
}

/// Calculate risk metrics from simulation results.
fn calculate_portfolio_metrics(
    results: &Vec<i128>,
    params: &SimulationParams,
    total_interest: i128,
    total_defaults: i128,
    losses_count: u32,
) -> (r: Result<PortfolioStressTestResult, ContractError>)
    requires
        results@.len() > 0 ==> params.simulation_count > 0 && deviations_fit(results@),
    ensures
        results@.len() == 0 ==> r == Err::<PortfolioStressTestResult, ContractError>(
            ContractError::InvalidInput,
        ),
        results@.len() > 0 ==> r == Ok::<PortfolioStressTestResult, ContractError>(
            portfolio_metrics(results@, *params, losses_count),
        ),
{
    let n = results.len();
    if n == 0 {
        return Err(ContractError::InvalidInput);
    }
    let sorted_results = sorted_copy(results);
    proof {
        lemma_le_i128_total();
        results@.lemma_sort_by_ensures(le_i128());
        vstd::seq_lib::to_multiset_len(results@);
        vstd::seq_lib::to_multiset_len(sorted_results@);
    }

    let mean_value = div_i128(sum_prefix(results, n), n as i128);
    assert(results@.take(n as int) =~= results@);

    // Value at Risk: the outcome at the edge of the worst 5%
    let var_index: usize = n / 20;
    proof {
        lemma_tail_index(n as nat);
    }
    let var_95 = sorted_results[var_index];

    // Expected Shortfall: mean of the outcomes up to that edge
    let cvar_index: usize = n / 20;
    let cvar_95 = div_i128(sum_prefix(&sorted_results, cvar_index + 1), cvar_index as i128 + 1);

    let min_value = sorted_results[0];
    let max_value = sorted_results[n - 1];

    assert(forall|i: int| 0 <= i < results@.len() ==> fits_i128(#[trigger] results@[i] - mean_value));
    let variance = div_i128(sum_squared_deviations(results, mean_value), n as i128);

    let std_dev: i128 = if variance > 0 {
        let root = integer_sqrt(variance as u128);
        proof {
            lemma_floor_sqrt_unique(variance as int, root as int);
            assert(root <= variance) by (nonlinear_arith)
                requires root * root <= variance, variance >= 1, root >= 0;
        }
        root as i128
    } else {
        0
    };

    let loss_probability = #[verifier::truncate] ((losses_count as u128 * 10_000
        / params.simulation_count as u128) as u32);
    let max_loss = saturating_sub_i128(min_value, params.portfolio_value);

    Ok(PortfolioStressTestResult {
        var_95,
        cvar_95,
        mean_value,
        min_value,
        max_value,
        std_dev,
        loss_probability,
        max_loss,
        simulation_count: params.simulation_count,
    })
}

// ---------------------------------------------------------------------------
// Monte Carlo runs and stress scenarios
// ---------------------------------------------------------------------------

/// End values of the first `k` simulated periods, the generator starting
/// from `state`, and the generator's state afterwards.
pub open spec fn runs_after(params: SimulationParams, state: u64, k: nat) -> (Seq<i128>, u64)
    decreases k,
{
    if k == 0 {
        (Seq::empty(), state)
    } else {
        let (values, s) = runs_after(params, state, (k - 1) as nat);
        let (period, next) = simulated_period(params, s);
        (values.push(period.end_value), next)
    }
}

/// End values of all the periods that a Monte Carlo run simulates.
pub open spec fn simulated_end_values(params: SimulationParams, seed: u64) -> Seq<i128> {
    runs_after(params, lcg_step(seed), params.simulation_count as nat).0
}

/// Number of outcomes below `v`.
pub open spec fn count_below(s: Seq<i128>, v: i128) -> nat
    decreases s.len(),
{
    if s.len() == 0 {
        0
    } else {
        count_below(s.drop_last(), v) + if s.last() < v {
            1nat
        } else {
            0nat
        }
    }
}

/// Result of a Monte Carlo run: the risk metrics of the simulated end values.
#[verifier::opaque]
pub open spec fn monte_carlo_result(params: SimulationParams, seed: u64) -> PortfolioStressTestResult {
    let values = simulated_end_values(params, seed);
    portfolio_metrics(values, params, count_below(values, params.portfolio_value) as u32)
}

/// A Monte Carlo run on these inputs stays within `i128` when it computes the
/// deviations from the mean.
#[verifier::opaque]
pub open spec fn monte_carlo_defined(params: SimulationParams, seed: u64) -> bool {
    params.simulation_count > 0 ==> deviations_fit(simulated_end_values(params, seed))
}

proof fn lemma_runs_len(params: SimulationParams, state: u64, k: nat)
    ensures
        runs_after(params, state, k).0.len() == k,
    decreases k,
{
    if k > 0 {
        lemma_runs_len(params, state, (k - 1) as nat);
    }
}

proof fn lemma_count_below_le(s: Seq<i128>, v: i128)
    ensures
        count_below(s, v) <= s.len(),
    decreases s.len(),
{
    if s.len() > 0 {
        lemma_count_below_le(s.drop_last(), v);
    }
}

/// Run a Monte Carlo simulation for portfolio stress testing.
pub fn run_monte_carlo_simulation(params: &SimulationParams, seed: u64) -> (r: Result<
    PortfolioStressTestResult,
    ContractError,
>)
    requires
        monte_carlo_defined(*params, seed),
    ensures
        params.simulation_count == 0 ==> r == Err::<PortfolioStressTestResult, ContractError>(
            ContractError::InvalidInput,
        ),
        params.simulation_count > 0 ==> r == Ok::<PortfolioStressTestResult, ContractError>(
            monte_carlo_result(*params, seed),
        ),
{
    reveal(monte_carlo_result);
    reveal(monte_carlo_defined);
    if params.simulation_count == 0 {
        return Err(ContractError::InvalidInput);
    }

    let mut results: Vec<i128> = Vec::new();
    let mut losses_count: u32 = 0;
    let mut total_interest: i128 = 0;
    let mut total_defaults: i128 = 0;

    let mut rng = SimpleRng::new(seed);

    let mut i: u32 = 0;
    while i < params.simulation_count
        invariant
            i <= params.simulation_count,
            (results@, rng@) == runs_after(*params, lcg_step(seed), i as nat),
            losses_count == count_below(results@, params.portfolio_value),
            losses_count <= i,
        decreases params.simulation_count - i,
    {
        let ghost before = results@;
        let sim_result = simulate_single_period(params, &mut rng);

        results.push(sim_result.end_value);
        total_interest = saturating_add_i128(total_interest, sim_result.interest_collected);
        total_defaults = saturating_add_i128(total_defaults, sim_result.default_losses);

        assert(results@.drop_last() =~= before);
        if sim_result.end_value < params.portfolio_value {
            losses_count = losses_count.saturating_add(1);
        }
        i = i + 1;
    }

    calculate_portfolio_metrics(&results, params, total_interest, total_defaults, losses_count)
}

/// End values of all the periods that a Monte Carlo run simulates.
pub fn simulate_end_values(params: &SimulationParams, seed: u64) -> (r: Vec<i128>)
    ensures
        r@ == simulated_end_values(*params, seed),
{
    let mut results: Vec<i128> = Vec::new();
    let mut rng = SimpleRng::new(seed);
    let mut i: u32 = 0;
    while i < params.simulation_count
        invariant
            i <= params.simulation_count,
            (results@, rng@) == runs_after(*params, lcg_step(seed), i as nat),
        decreases params.simulation_count - i,
    {
        let sim_result = simulate_single_period(params, &mut rng);
        results.push(sim_result.end_value);
        i = i + 1;
    }
    results
}

/// Whether every value's deviation from the values' mean is an `i128`.
pub fn deviations_within_range(values: &Vec<i128>) -> (r: bool)
    ensures
        r == deviations_fit(values@),
{
    let n = values.len();
    if n == 0 {
        return true;
    }
    let mean = div_i128(sum_prefix(values, n), n as i128);
    assert(values@.take(n as int) =~= values@);
    let mut i: usize = 0;
    while i < n
        invariant
            n == values@.len(),
            i <= n,
            mean == mean_of(values@),
            forall|j: int| 0 <= j < i ==> fits_i128(#[trigger] values@[j] - mean_of(values@)),
        decreases n - i,
    {
        if values[i].checked_sub(mean).is_none() {
            return false;
        }
        i = i + 1;
    }
    true
}

/// Whether a Monte Carlo run on these inputs is defined (see
/// `monte_carlo_defined`), found by simulating the run.
pub fn monte_carlo_inputs_supported(params: &SimulationParams, seed: u64) -> (r: bool)
    ensures
        r == monte_carlo_defined(*params, seed),
{
    reveal(monte_carlo_defined);
    if params.simulation_count == 0 {
        return true;
    }
    let values = simulate_end_values(params, seed);
    deviations_within_range(&values)
}

/// Scenario with twice the default rate (at most 100%).
pub open spec fn high_default_scenario(p: SimulationParams) -> SimulationParams {
    SimulationParams {
        default_rate_bps: if p.default_rate_bps as int * 2 > 10_000 {
            10_000
        } else {
            (p.default_rate_bps * 2) as u32
        },
        ..p
    }
}

/// Scenario with half the interest rate.
pub open spec fn low_rate_scenario(p: SimulationParams) -> SimulationParams {
    SimulationParams { interest_rate_bps: p.interest_rate_bps / 2, ..p }
}

/// Scenario with half the recovery rate.
pub open spec fn poor_recovery_scenario(p: SimulationParams) -> SimulationParams {
    SimulationParams { recovery_rate_bps: p.recovery_rate_bps / 2, ..p }
}

/// The seed used for the `k`-th scenario: `seed + k`, wrapping.
pub open spec fn scenario_seed(seed: u64, k: int) -> u64 {
    ((seed + k) % 0x1_0000_0000_0000_0000) as u64
}

/// Every scenario of a stress test stays within `i128`.
pub open spec fn stress_test_defined(p: SimulationParams, seed: u64) -> bool {
    &&& monte_carlo_defined(p, seed)
    &&& monte_carlo_defined(high_default_scenario(p), scenario_seed(seed, 1))
    &&& monte_carlo_defined(low_rate_scenario(p), scenario_seed(seed, 2))
    &&& monte_carlo_defined(poor_recovery_scenario(p), scenario_seed(seed, 3))
}

/// Stress test the portfolio across four scenarios: the base case, twice the
/// default rate, half the interest rate and half the recovery rate.
pub fn stress_test_scenarios(base_params: &SimulationParams, seed: u64) -> (r: Result<
    Vec<PortfolioStressTestResult>,
    ContractError,
>)
    requires
        stress_test_defined(*base_params, seed),
    ensures
        base_params.simulation_count == 0 ==> (r matches Err(e) && e == ContractError::InvalidInput),
        base_params.simulation_count > 0 ==> (r matches Ok(v) && v@ == seq![
            monte_carlo_result(*base_params, seed),
            monte_carlo_result(high_default_scenario(*base_params), scenario_seed(seed, 1)),
            monte_carlo_result(low_rate_scenario(*base_params), scenario_seed(seed, 2)),
            monte_carlo_result(poor_recovery_scenario(*base_params), scenario_seed(seed, 3)),
        ]),
        base_params.simulation_count > 0 ==> (r matches Ok(v) && v@.len() == 4 && v@[1]
            == monte_carlo_result(
            SimulationParams {
                default_rate_bps: if 2 * base_params.default_rate_bps > 10_000 {
                    10_000u32
                } else {
                    (2 * base_params.default_rate_bps) as u32
                },
                ..*base_params
            },
            seed.wrapping_add(1),
        ) && v@[2] == monte_carlo_result(
            SimulationParams {
                interest_rate_bps: (base_params.interest_rate_bps / 2) as u32,
                ..*base_params
            },
            seed.wrapping_add(2),
        ) && v@[3] == monte_carlo_result(
            SimulationParams {
                recovery_rate_bps: (base_params.recovery_rate_bps / 2) as u32,
                ..*base_params
            },
            seed.wrapping_add(3),
        )),
{
    let mut results: Vec<PortfolioStressTestResult> = Vec::new();

    // Scenario 1: base case
    let base_result = run_monte_carlo_simulation(base_params, seed)?;
    results.push(base_result);

    // Scenario 2: high default environment (2x default rate)
    let mut high_default_params = *base_params;
    let doubled: u64 = high_default_params.default_rate_bps as u64 * 2;
    high_default_params.default_rate_bps = if doubled > 10_000 {
        10_000
    } else {
        doubled as u32
    };
    assert(high_default_params == high_default_scenario(*base_params));
    let high_default_result = run_monte_carlo_simulation(
        &high_default_params,
        seed.wrapping_add(1),
    )?;
    results.push(high_default_result);

    // Scenario 3: low interest rate environment (50% lower rates)
    let mut low_rate_params = *base_params;
    low_rate_params.interest_rate_bps = low_rate_params.interest_rate_bps / 2;
    let low_rate_result = run_monte_carlo_simulation(&low_rate_params, seed.wrapping_add(2))?;
    results.push(low_rate_result);

    // Scenario 4: poor recovery (recovery rate halved)
    let mut poor_recovery_params = *base_params;
    poor_recovery_params.recovery_rate_bps = poor_recovery_params.recovery_rate_bps / 2;
    let poor_recovery_result = run_monte_carlo_simulation(
        &poor_recovery_params,
        seed.wrapping_add(3),
    )?;
    results.push(poor_recovery_result);

    proof {
        lemma_stress_test_results(*base_params, seed);
    }
    Ok(results)
}

/// Whether every scenario of a stress test on these inputs is defined.
pub fn stress_test_inputs_supported(base_params: &SimulationParams, seed: u64) -> (r: bool)
    ensures
        r == stress_test_defined(*base_params, seed),
{
    let mut high_default_params = *base_params;
    let doubled: u64 = high_default_params.default_rate_bps as u64 * 2;
    high_default_params.default_rate_bps = if doubled > 10_000 {
        10_000
    } else {
        doubled as u32
    };
    assert(high_default_params == high_default_scenario(*base_params));
    let mut low_rate_params = *base_params;
    low_rate_params.interest_rate_bps = low_rate_params.interest_rate_bps / 2;
    let mut poor_recovery_params = *base_params;
    poor_recovery_params.recovery_rate_bps = poor_recovery_params.recovery_rate_bps / 2;

    monte_carlo_inputs_supported(base_params, seed) && monte_carlo_inputs_supported(
        &high_default_params,
        seed.wrapping_add(1),
    ) && monte_carlo_inputs_supported(&low_rate_params, seed.wrapping_add(2))
        && monte_carlo_inputs_supported(&poor_recovery_params, seed.wrapping_add(3))
}

// ---------------------------------------------------------------------------
// Properties of the risk metrics
// ---------------------------------------------------------------------------

/// Plain sum of the outcomes.
pub open spec fn plain_sum(s: Seq<i128>) -> int
    decreases s.len(),
{
    if s.len() == 0 {
        0
    } else {
        plain_sum(s.drop_last()) + s.last()
    }
}

/// No partial sum of the outcomes, taken in order, leaves `i128`: summing
/// them never saturates.
pub open spec fn partial_sums_fit(s: Seq<i128>) -> bool {
    forall|k: int| 0 <= k <= s.len() ==> fits_i128(#[trigger] plain_sum(s.take(k)))
}

proof fn lemma_sat_sum_exact(s: Seq<i128>)
    requires
        partial_sums_fit(s),
    ensures
        sat_sum(s) == plain_sum(s),
    decreases s.len(),
{
    if s.len() > 0 {
        let t = s.drop_last();
        assert forall|k: int| 0 <= k <= t.len() implies fits_i128(#[trigger] plain_sum(t.take(k))) by {
            assert(t.take(k) =~= s.take(k));
        }
        lemma_sat_sum_exact(t);
        assert(s.take(s.len() as int) =~= s);
        assert(fits_i128(plain_sum(s.take(s.len() as int))));
    }
}

proof fn lemma_plain_sum_bounds(s: Seq<i128>, lo: int, hi: int)
    requires
        forall|i: int| 0 <= i < s.len() ==> lo <= #[trigger] s[i] <= hi,
    ensures
        s.len() * lo <= plain_sum(s) <= s.len() * hi,
    decreases s.len(),
{
    if s.len() > 0 {
        let t = s.drop_last();
        lemma_plain_sum_bounds(t, lo, hi);
        assert(lo <= s[s.len() - 1] <= hi);
        assert(s.len() * lo == t.len() * lo + lo) by (nonlinear_arith)
            requires s.len() == t.len() + 1;
        assert(s.len() * hi == t.len() * hi + hi) by (nonlinear_arith)
            requires s.len() == t.len() + 1;
    }
}

proof fn lemma_div_trunc_between(sum: int, n: int, lo: int, hi: int)
    requires
        n > 0,
        n * lo <= sum <= n * hi,
        lo <= hi,
    ensures
        lo <= div_trunc(sum, n) <= hi,
{
    if sum >= 0 {
        if lo >= 0 {
            lemma_div_is_ordered(n * lo, sum, n);
            lemma_div_multiples_vanish(lo, n);
        } else {
            vstd::arithmetic::div_mod::lemma_div_pos_is_pos(sum, n);
        }
        lemma_div_is_ordered(sum, n * hi, n);
        lemma_div_multiples_vanish(hi, n);
    } else {
        // sum < 0: the result is -((-sum) / n)
        assert(n * (-lo) == -(n * lo)) by (nonlinear_arith);
        lemma_div_is_ordered(-sum, n * (-lo), n);
        lemma_div_multiples_vanish(-lo, n);
        if hi <= 0 {
            assert(n * (-hi) == -(n * hi)) by (nonlinear_arith);
            lemma_div_is_ordered(n * (-hi), -sum, n);
            lemma_div_multiples_vanish(-hi, n);
        } else {
            vstd::arithmetic::div_mod::lemma_div_pos_is_pos(-sum, n);
        }
    }
}

/// The ascending order of the outcomes holds the same outcomes, in order.
proof fn lemma_ascending(s: Seq<i128>)
    ensures
        ascending(s).len() == s.len(),
        forall|i: int, j: int|
            0 <= i <= j < s.len() ==> ascending(s)[i] <= ascending(s)[j],
        forall|i: int| 0 <= i < s.len() ==> ascending(s).contains(#[trigger] s[i]),
        forall|j: int| 0 <= j < s.len() ==> s.contains(#[trigger] ascending(s)[j]),
{
    broadcast use vstd::seq_lib::group_to_multiset_ensures;

    lemma_le_i128_total();
    s.lemma_sort_by_ensures(le_i128());
    let t = ascending(s);
    vstd::seq_lib::to_multiset_len(s);
    vstd::seq_lib::to_multiset_len(t);
    assert forall|i: int, j: int| 0 <= i <= j < s.len() implies t[i] <= t[j] by {
        if i < j {
            assert(le_i128()(t[i], t[j]));
        }
    }
    assert forall|i: int| 0 <= i < s.len() implies t.contains(#[trigger] s[i]) by {
        assert(s.contains(s[i]));
        vstd::seq_lib::to_multiset_contains(s, s[i]);
        vstd::seq_lib::to_multiset_contains(t, s[i]);
        assert(t.contains(s[i]));
    }
    assert forall|j: int| 0 <= j < s.len() implies s.contains(#[trigger] t[j]) by {
        assert(t.contains(t[j]));
        vstd::seq_lib::to_multiset_contains(s, t[j]);
        vstd::seq_lib::to_multiset_contains(t, t[j]);
        assert(s.contains(t[j]));
    }
}

proof fn lemma_ascending_extremes(s: Seq<i128>)
    requires
        s.len() > 0,
    ensures
        ({
            let t = ascending(s);
            let n = s.len() as int;
            &&& t[0] <= t[tail_index(s.len(), VAR_CONFIDENCE_LEVEL_BPS)] <= t[n - 1]
            &&& forall|i: int| 0 <= i < s.len() ==> t[0] <= #[trigger] s[i] <= t[n - 1]
            &&& s.contains(t[0])
            &&& s.contains(t[n - 1])
        }),
{
    lemma_ascending(s);
    lemma_tail_index(s.len());
    let t = ascending(s);
    let n = s.len() as int;
    assert(t[0] <= t[n / 20] <= t[n - 1]);
    assert forall|i: int| 0 <= i < s.len() implies t[0] <= #[trigger] s[i] <= t[n - 1] by {
        assert(t.contains(s[i]));
        let j = choose|j: int| 0 <= j < t.len() && t[j] == s[i];
        assert(t[0] <= t[j] <= t[n - 1]);
    }
    assert(s.contains(t[0]));
    assert(s.contains(t[n - 1]));
}

proof fn lemma_std_dev_nonnegative(s: Seq<i128>)
    ensures
        std_dev_of(s) >= 0,
{
    let v = variance_of(s) as int;
    if v > 0 {
        let r = lemma_floor_sqrt(v);
        lemma_floor_sqrt_unique(v, r);
        assert(r <= v) by (nonlinear_arith)
            requires r * r <= v, v >= 1, r >= 0;
    }
}

proof fn lemma_loss_probability_bounded(losses_count: u32, count: u32)
    requires
        0 < count,
        losses_count <= count,
    ensures
        (losses_count as int * 10_000 / count as int) as u32 <= 10_000,
        losses_count as int * 10_000 / count as int <= 10_000,
{
    let c = count as int;
    lemma_div_is_ordered(losses_count as int * 10_000, c * 10_000, c);
    vstd::arithmetic::div_mod::lemma_div_by_multiple(10_000, c);
    vstd::arithmetic::div_mod::lemma_div_pos_is_pos(losses_count as int * 10_000, c);
}

/// The ranked metrics lie among the outcomes: the minimum and maximum are
/// outcomes that bound all others, the Value at Risk lies between them, the
/// standard deviation is never negative, and the loss probability is at most
/// 100% when the losses counted are at most the number of simulations.
pub proof fn lemma_metrics_bounds(s: Seq<i128>, params: SimulationParams, losses_count: u32)
    requires
        s.len() > 0,
    ensures
        ({
            let m = portfolio_metrics(s, params, losses_count);
            &&& m.min_value <= m.var_95 <= m.max_value
            &&& forall|i: int| 0 <= i < s.len() ==> m.min_value <= #[trigger] s[i] <= m.max_value
            &&& s.contains(m.min_value)
            &&& s.contains(m.max_value)
            &&& m.std_dev >= 0
            &&& (0 < params.simulation_count && losses_count <= params.simulation_count)
                ==> m.loss_probability <= 10_000
        }),
{
    lemma_ascending_extremes(s);
    lemma_std_dev_nonnegative(s);
    if 0 < params.simulation_count && losses_count <= params.simulation_count {
        lemma_loss_probability_bounded(losses_count, params.simulation_count);
    }
}

/// When summing the outcomes never saturates, their mean lies between the
/// smallest and the largest outcome.
pub proof fn lemma_mean_within_bounds(s: Seq<i128>, params: SimulationParams, losses_count: u32)
    requires
        s.len() > 0,
        partial_sums_fit(s),
    ensures
        ({
            let m = portfolio_metrics(s, params, losses_count);
            m.min_value <= m.mean_value <= m.max_value
        }),
{
    lemma_metrics_bounds(s, params, losses_count);
    let m = portfolio_metrics(s, params, losses_count);
    lemma_sat_sum_exact(s);
    lemma_plain_sum_bounds(s, m.min_value as int, m.max_value as int);
    lemma_div_trunc_between(plain_sum(s), s.len() as int, m.min_value as int, m.max_value as int);
}

/// A Monte Carlo run over `n` simulations ranks `n` outcomes, and its loss
/// probability is at most 100%.
pub proof fn lemma_monte_carlo_loss_probability(params: SimulationParams, seed: u64)
    requires
        params.simulation_count > 0,
    ensures
        simulated_end_values(params, seed).len() == params.simulation_count,
        monte_carlo_result(params, seed).loss_probability <= 10_000,
        monte_carlo_result(params, seed).simulation_count == params.simulation_count,
{
    reveal(monte_carlo_result);
    let values = simulated_end_values(params, seed);
    lemma_runs_len(params, lcg_step(seed), params.simulation_count as nat);
    lemma_count_below_le(values, params.portfolio_value);
    lemma_metrics_bounds(values, params, count_below(values, params.portfolio_value) as u32);
}

/// The default rate is a probability over the 32-bit draws: at 10000 basis
/// points or more every draw makes a loan default, at 0 none does, and in
/// between exactly `default_rate_bps / 10000` of all draws (rounded down) do.
pub proof fn lemma_default_rate_is_probability(params: SimulationParams, draw: u32)
    ensures
        params.default_rate_bps >= 10_000 ==> (draw as u64) < default_threshold(params),
        params.default_rate_bps == 0 ==> !((draw as u64) < default_threshold(params)),
        default_threshold(params) == params.default_rate_bps as int * DRAW_RANGE / 10_000,
{
    let b = params.default_rate_bps as int;
    assert(b * DRAW_RANGE <= u64::MAX) by (nonlinear_arith)
        requires b <= u32::MAX;
    assert(b * DRAW_RANGE / 10_000 >= 0) by (nonlinear_arith)
        requires b >= 0;
    if b >= 10_000 {
        assert(b * DRAW_RANGE >= 10_000 * DRAW_RANGE) by (nonlinear_arith)
            requires b >= 10_000;
        vstd::arithmetic::div_mod::lemma_div_is_ordered(10_000 * DRAW_RANGE, b * DRAW_RANGE, 10_000);
        vstd::arithmetic::div_mod::lemma_div_by_multiple(DRAW_RANGE as int, 10_000);
        assert(10_000 * DRAW_RANGE == DRAW_RANGE * 10_000);
    }
}

/// With a default rate of 10000 basis points or more, every loan of a period
/// defaults.
pub proof fn lemma_full_default_rate_defaults_every_loan(
    params: SimulationParams,
    state: u64,
    k: nat,
)
    requires
        params.default_rate_bps >= 10_000,
        k <= u32::MAX,
    ensures
        period_after(params, state, k).0.defaults_count == k,
    decreases k,
{
    if k > 0 {
        lemma_full_default_rate_defaults_every_loan(params, state, (k - 1) as nat);
        let (_, s) = period_after(params, state, (k - 1) as nat);
        lemma_default_rate_is_probability(params, lcg_output(lcg_step(s)));
    }
}

/// When summing the outcomes of the Expected Shortfall's tail never
/// saturates, the Expected Shortfall lies between the minimum outcome and
/// the Value at Risk.
pub proof fn lemma_cvar_between_min_and_var(s: Seq<i128>, params: SimulationParams, losses_count: u32)
    requires
        s.len() > 0,
        partial_sums_fit(ascending(s).take(tail_index(s.len(), CVAR_CONFIDENCE_LEVEL_BPS) + 1)),
    ensures
        ({
            let m = portfolio_metrics(s, params, losses_count);
            m.min_value <= m.cvar_95 <= m.var_95
        }),
{
    lemma_ascending(s);
    lemma_tail_index(s.len());
    let t = ascending(s);
    let k = tail_index(s.len(), CVAR_CONFIDENCE_LEVEL_BPS);
    let tail = t.take(k + 1);
    assert(k < s.len());
    assert forall|i: int| 0 <= i < tail.len() implies t[0] <= #[trigger] tail[i] <= t[k] by {
        assert(tail[i] == t[i]);
    }
    lemma_sat_sum_exact(tail);
    lemma_plain_sum_bounds(tail, t[0] as int, t[k] as int);
    lemma_div_trunc_between(plain_sum(tail), k + 1, t[0] as int, t[k] as int);
}

/// Sum of `f` over the outcomes.
pub open spec fn sum_of(s: Seq<i128>, f: spec_fn(i128) -> int) -> int
    decreases s.len(),
{
    if s.len() == 0 {
        0
    } else {
        sum_of(s.drop_last(), f) + f(s.last())
    }
}

/// An outcome's own value.
pub open spec fn value_term() -> spec_fn(i128) -> int {
    |x: i128| x as int
}

/// An outcome's squared deviation from `m`, saturating.
pub open spec fn sq_dev_term(m: i128) -> spec_fn(i128) -> int {
    |x: i128| sat_mul(x - m, x - m) as int
}

/// No partial sum of the squared deviations from `m`, in order, leaves `i128`.
pub open spec fn sq_dev_sums_fit(s: Seq<i128>, m: i128) -> bool {
    forall|k: int| 0 <= k <= s.len() ==> fits_i128(#[trigger] sum_of(s.take(k), sq_dev_term(m)))
}

proof fn lemma_plain_sum_is_sum_of(s: Seq<i128>)
    ensures
        plain_sum(s) == sum_of(s, value_term()),
    decreases s.len(),
{
    if s.len() > 0 {
        lemma_plain_sum_is_sum_of(s.drop_last());
    }
}

proof fn lemma_sq_dev_sum_exact(s: Seq<i128>, m: i128)
    requires
        sq_dev_sums_fit(s, m),
    ensures
        sq_dev_sum(s, m) == sum_of(s, sq_dev_term(m)),
    decreases s.len(),
{
    if s.len() > 0 {
        let t = s.drop_last();
        assert forall|k: int| 0 <= k <= t.len() implies fits_i128(
            #[trigger] sum_of(t.take(k), sq_dev_term(m)),
        ) by {
            assert(t.take(k) =~= s.take(k));
        }
        lemma_sq_dev_sum_exact(t, m);
        assert(s.take(s.len() as int) =~= s);
        assert(fits_i128(sum_of(s.take(s.len() as int), sq_dev_term(m))));
    }
}

proof fn lemma_sum_of_remove(s: Seq<i128>, i: int, f: spec_fn(i128) -> int)
    requires
        0 <= i < s.len(),
    ensures
        sum_of(s, f) == sum_of(s.remove(i), f) + f(s[i]),
    decreases s.len(),
{
    if i == s.len() - 1 {
        assert(s.remove(i) =~= s.drop_last());
    } else {
        assert(s.remove(i).drop_last() =~= s.drop_last().remove(i));
        assert(s.remove(i).last() == s.last());
        lemma_sum_of_remove(s.drop_last(), i, f);
    }
}

proof fn lemma_sum_of_permutation(s1: Seq<i128>, s2: Seq<i128>, f: spec_fn(i128) -> int)
    requires
        s1.to_multiset() == s2.to_multiset(),
    ensures
        sum_of(s1, f) == sum_of(s2, f),
    decreases s1.len(),
{
    broadcast use vstd::seq_lib::group_to_multiset_ensures;
    broadcast use vstd::multiset::group_multiset_axioms;

    vstd::seq_lib::to_multiset_len(s1);
    vstd::seq_lib::to_multiset_len(s2);
    if s1.len() > 0 {
        let x = s1.last();
        let rest = s1.drop_last();
        assert(rest.push(x) =~= s1);
        assert(s1.to_multiset() =~= rest.to_multiset().insert(x));
        assert(s2.to_multiset().count(x) > 0);
        assert(s2.contains(x));
        let i = choose|i: int| 0 <= i < s2.len() && s2[i] == x;
        assert(s2.remove(i).to_multiset() =~= s2.to_multiset().remove(x));
        assert(rest.to_multiset() =~= s2.remove(i).to_multiset());
        lemma_sum_of_permutation(rest, s2.remove(i), f);
        lemma_sum_of_remove(s2, i, f);
    }
}

proof fn lemma_ascending_of_permutation(s1: Seq<i128>, s2: Seq<i128>)
    requires
        s1.to_multiset() == s2.to_multiset(),
    ensures
        ascending(s1) == ascending(s2),
{
    lemma_le_i128_total();
    s1.lemma_sort_by_ensures(le_i128());
    s2.lemma_sort_by_ensures(le_i128());
    vstd::seq_lib::lemma_sorted_unique(ascending(s1), ascending(s2), le_i128());
}

/// The risk metrics depend only on which outcomes occur, not on their order:
/// when two lists hold the same outcomes and summing them (and their squared
/// deviations from the mean) in either order never saturates, their metrics
/// are equal.
pub proof fn lemma_metrics_order_independent(
    s1: Seq<i128>,
    s2: Seq<i128>,
    params: SimulationParams,
    losses_count: u32,
)
    requires
        s1.to_multiset() == s2.to_multiset(),
        partial_sums_fit(s1),
        partial_sums_fit(s2),
        sq_dev_sums_fit(s1, mean_of(s1)),
        sq_dev_sums_fit(s2, mean_of(s2)),
    ensures
        portfolio_metrics(s1, params, losses_count) == portfolio_metrics(s2, params, losses_count),
{
    vstd::seq_lib::to_multiset_len(s1);
    vstd::seq_lib::to_multiset_len(s2);
    lemma_ascending_of_permutation(s1, s2);
    lemma_sat_sum_exact(s1);
    lemma_sat_sum_exact(s2);
    lemma_plain_sum_is_sum_of(s1);
    lemma_plain_sum_is_sum_of(s2);
    lemma_sum_of_permutation(s1, s2, value_term());
    assert(mean_of(s1) == mean_of(s2));
    let m = mean_of(s1);
    lemma_sq_dev_sum_exact(s1, m);
    lemma_sq_dev_sum_exact(s2, m);
    lemma_sum_of_permutation(s1, s2, sq_dev_term(m));
    assert(variance_of(s1) == variance_of(s2));
}

/// Each stress scenario changes exactly one parameter of the base case, in
/// the harsh direction: the high-default scenario doubles the default rate
/// (capped at 100%), so it is never below the base rate (itself capped at
/// 100%); the low-rate scenario halves the interest rate and the
/// poor-recovery scenario halves the recovery rate (rounding down), so
/// neither is above the base rate. Every other parameter is the base one.
pub proof fn lemma_stress_scenarios_are_harsher(p: SimulationParams)
    ensures
        ({
            let h = high_default_scenario(p);
            &&& 2 * p.default_rate_bps <= 10_000 ==> h.default_rate_bps == 2 * p.default_rate_bps
            &&& 2 * p.default_rate_bps > 10_000 ==> h.default_rate_bps == 10_000
            &&& h.default_rate_bps <= 10_000
            &&& h.default_rate_bps >= p.default_rate_bps || h.default_rate_bps == 10_000
            &&& p.default_rate_bps <= 10_000 ==> h.default_rate_bps >= p.default_rate_bps
            &&& p.default_rate_bps > 0 && 2 * p.default_rate_bps <= 10_000 ==> h.default_rate_bps
                > p.default_rate_bps
            &&& h.interest_rate_bps == p.interest_rate_bps
            &&& h.recovery_rate_bps == p.recovery_rate_bps
            &&& h.simulation_count == p.simulation_count
            &&& h.portfolio_value == p.portfolio_value
        }),
        ({
            let l = low_rate_scenario(p);
            &&& 2 * l.interest_rate_bps <= p.interest_rate_bps < 2 * l.interest_rate_bps + 2
            &&& l.interest_rate_bps <= p.interest_rate_bps
            &&& l.default_rate_bps == p.default_rate_bps
            &&& l.recovery_rate_bps == p.recovery_rate_bps
            &&& l.simulation_count == p.simulation_count
            &&& l.portfolio_value == p.portfolio_value
        }),
        ({
            let r = poor_recovery_scenario(p);
            &&& 2 * r.recovery_rate_bps <= p.recovery_rate_bps < 2 * r.recovery_rate_bps + 2
            &&& r.recovery_rate_bps <= p.recovery_rate_bps
            &&& r.default_rate_bps == p.default_rate_bps
            &&& r.interest_rate_bps == p.interest_rate_bps
            &&& r.simulation_count == p.simulation_count
            &&& r.portfolio_value == p.portfolio_value
        }),
{
}

/// A stress test's results are, in order, the Monte Carlo results of the base
/// case and of the base case with (1) the default rate doubled up to 100%,
/// (2) the interest rate halved and (3) the recovery rate halved, each
/// scenario run on the next seed.
pub proof fn lemma_stress_test_results(p: SimulationParams, seed: u64)
    ensures
        ({
            let doubled: u32 = if 2 * p.default_rate_bps > 10_000 {
                10_000u32
            } else {
                (2 * p.default_rate_bps) as u32
            };
            &&& high_default_scenario(p) == SimulationParams { default_rate_bps: doubled, ..p }
            &&& low_rate_scenario(p) == SimulationParams {
                interest_rate_bps: (p.interest_rate_bps / 2) as u32,
                ..p
            }
            &&& poor_recovery_scenario(p) == SimulationParams {
                recovery_rate_bps: (p.recovery_rate_bps / 2) as u32,
                ..p
            }
            &&& scenario_seed(seed, 1) == seed.wrapping_add(1)
            &&& scenario_seed(seed, 2) == seed.wrapping_add(2)
            &&& scenario_seed(seed, 3) == seed.wrapping_add(3)
        }),
{
}

/// Number of outcomes at or below `v`.
pub open spec fn count_at_most(s: Seq<i128>, v: i128) -> nat
    decreases s.len(),
{
    if s.len() == 0 {
        0
    } else {
        count_at_most(s.drop_last(), v) + if s.last() <= v {
            1nat
        } else {
            0nat
        }
    }
}

/// Indicator of an outcome below `v`.
pub open spec fn below_term(v: i128) -> spec_fn(i128) -> int {
    |x: i128| if x < v { 1int } else { 0int }
}

/// Indicator of an outcome at or below `v`.
pub open spec fn at_most_term(v: i128) -> spec_fn(i128) -> int {
    |x: i128| if x <= v { 1int } else { 0int }
}

proof fn lemma_counts_are_sums(s: Seq<i128>, v: i128)
    ensures
        count_below(s, v) == sum_of(s, below_term(v)),
        count_at_most(s, v) == sum_of(s, at_most_term(v)),
    decreases s.len(),
{
    if s.len() > 0 {
        lemma_counts_are_sums(s.drop_last(), v);
    }
}

proof fn lemma_sum_of_zero_tail(t: Seq<i128>, f: spec_fn(i128) -> int, m: int)
    requires
        0 <= m,
        forall|j: int| 0 <= j < t.len() ==> 0 <= #[trigger] f(t[j]) <= 1,
        forall|j: int| m <= j < t.len() ==> #[trigger] f(t[j]) == 0,
    ensures
        sum_of(t, f) <= m,
        sum_of(t, f) <= t.len(),
    decreases t.len(),
{
    if t.len() > 0 {
        let d = t.drop_last();
        assert forall|j: int| 0 <= j < d.len() implies 0 <= #[trigger] f(d[j]) <= 1 by {
            assert(d[j] == t[j]);
        }
        assert forall|j: int| m <= j < d.len() implies #[trigger] f(d[j]) == 0 by {
            assert(d[j] == t[j]);
        }
        assert(f(t[t.len() - 1]) <= 1);
        lemma_sum_of_zero_tail(d, f, m);
        if t.len() - 1 >= m {
            assert(f(t[t.len() - 1]) == 0);
        }
    }
}

proof fn lemma_sum_of_one_head(t: Seq<i128>, f: spec_fn(i128) -> int, m: int)
    requires
        0 <= m <= t.len(),
        forall|j: int| 0 <= j < t.len() ==> 0 <= #[trigger] f(t[j]),
        forall|j: int| 0 <= j < m ==> #[trigger] f(t[j]) == 1,
    ensures
        sum_of(t, f) >= m,
    decreases t.len(),
{
    if t.len() > 0 {
        let d = t.drop_last();
        assert forall|j: int| 0 <= j < d.len() implies 0 <= #[trigger] f(d[j]) by {
            assert(d[j] == t[j]);
        }
        assert(f(t[t.len() - 1]) >= 0);
        if m == t.len() {
            assert forall|j: int| 0 <= j < m - 1 implies #[trigger] f(d[j]) == 1 by {
                assert(d[j] == t[j]);
            }
            lemma_sum_of_one_head(d, f, m - 1);
            assert(f(t[t.len() - 1]) == 1);
        } else {
            assert forall|j: int| 0 <= j < m implies #[trigger] f(d[j]) == 1 by {
                assert(d[j] == t[j]);
            }
            lemma_sum_of_one_head(d, f, m);
        }
    }
}

/// The Value at Risk is the 5th percentile of the outcomes: at most 5% of
/// them (`n / 20`, rounded down) lie below it, and more than that lie at or
/// below it.
pub proof fn lemma_var_is_fifth_percentile(s: Seq<i128>, params: SimulationParams, losses_count: u32)
    requires
        s.len() > 0,
    ensures
        ({
            let v = portfolio_metrics(s, params, losses_count).var_95;
            &&& count_below(s, v) <= s.len() / 20
            &&& count_at_most(s, v) >= s.len() / 20 + 1
        }),
{
    broadcast use vstd::seq_lib::group_to_multiset_ensures;

    lemma_ascending(s);
    lemma_tail_index(s.len());
    lemma_le_i128_total();
    s.lemma_sort_by_ensures(le_i128());
    let t = ascending(s);
    let k = s.len() / 20;
    let v = t[k as int];
    assert(portfolio_metrics(s, params, losses_count).var_95 == v);
    lemma_counts_are_sums(s, v);
    lemma_sum_of_permutation(s, t, below_term(v));
    lemma_sum_of_permutation(s, t, at_most_term(v));
    assert forall|j: int| 0 <= j < t.len() implies 0 <= #[trigger] below_term(v)(t[j]) <= 1 by {}
    assert forall|j: int| k <= j < t.len() implies #[trigger] below_term(v)(t[j]) == 0 by {
        assert(t[k as int] <= t[j]);
    }
    lemma_sum_of_zero_tail(t, below_term(v), k as int);
    assert forall|j: int| 0 <= j < t.len() implies 0 <= #[trigger] at_most_term(v)(t[j]) by {}
    assert forall|j: int| 0 <= j < k + 1 implies #[trigger] at_most_term(v)(t[j]) == 1 by {
        assert(t[j] <= t[k as int]);
    }
    lemma_sum_of_one_head(t, at_most_term(v), k as int + 1);
}

/// The loss probability counts the runs that end below the initial
/// portfolio value: none when every run ends at or above it, 100% when
/// every run ends below it.
pub proof fn lemma_loss_probability_counts_losing_runs(params: SimulationParams, seed: u64)
    requires
        params.simulation_count > 0,
    ensures
        ({
            let values = simulated_end_values(params, seed);
            let m = monte_carlo_result(params, seed);
            &&& (forall|i: int| 0 <= i < values.len() ==> #[trigger] values[i] >= params.portfolio_value)
                ==> m.loss_probability == 0
            &&& (forall|i: int| 0 <= i < values.len() ==> #[trigger] values[i] < params.portfolio_value)
                ==> m.loss_probability == 10_000
            &&& m.loss_probability as int == (count_below(values, params.portfolio_value) as int
                * 10_000) / (params.simulation_count as int)
        }),
{
    reveal(monte_carlo_result);
    let values = simulated_end_values(params, seed);
    lemma_runs_len(params, lcg_step(seed), params.simulation_count as nat);
    lemma_count_below_le(values, params.portfolio_value);
    let pv = params.portfolio_value;
    let c = params.simulation_count as int;
    lemma_loss_probability_bounded(count_below(values, pv) as u32, params.simulation_count);
    lemma_counts_are_sums(values, pv);
    if forall|i: int| 0 <= i < values.len() ==> #[trigger] values[i] >= pv {
        assert forall|j: int| 0 <= j < values.len() implies 0 <= #[trigger] below_term(pv)(values[j]) <= 1 by {}
        assert forall|j: int| 0 <= j < values.len() implies #[trigger] below_term(pv)(values[j]) == 0 by {}
        lemma_sum_of_zero_tail(values, below_term(pv), 0);
    }
    if forall|i: int| 0 <= i < values.len() ==> #[trigger] values[i] < pv {
        assert forall|j: int| 0 <= j < values.len() implies 0 <= #[trigger] below_term(pv)(values[j]) by {}
        assert forall|j: int| 0 <= j < values.len() implies #[trigger] below_term(pv)(values[j]) == 1 by {}
        lemma_sum_of_one_head(values, below_term(pv), values.len() as int);
        vstd::arithmetic::div_mod::lemma_div_by_multiple(10_000, c);
        assert(c * 10_000 == 10_000 * c);
    }
}

} // verus!
