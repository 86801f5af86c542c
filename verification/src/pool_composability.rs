//! Lending pool composability: registering external DeFi pools, depositing
//! into them, recording the yield they earn and summarising the portfolio.
//!
//! The lists of pools, deposits, earnings and snapshots, and the identifier
//! counters, are records of contract storage: the functions take what is
//! stored and update it in place or return what to store.
use vstd::prelude::*;

use crate::common::{AccountId, ContractError, fits_i128, sat_add, saturating_add_i128};

verus! {

/// An external pool that lending pools can deposit into.
#[derive(Debug)]
pub struct ExternalPoolInterface {
    /// Unique identifier of the external pool
    pub pool_id: u64,
    /// Name of the external protocol
    pub protocol_name: String,
    /// Address of the external pool contract
    pub pool_contract: AccountId,
    /// Type of yield strategy (farming, staking, ...)
    pub strategy_type: String,
    /// Whether the pool is active
    pub is_active: bool,
    /// Timestamp when the pool was registered
    pub registered_at: u64,
}

/// A deposit of an internal pool into an external pool.
#[derive(Clone, Copy, Debug)]
pub struct ExternalPoolDeposit {
    /// Deposit identifier
    pub deposit_id: u64,
    /// Internal pool that made the deposit
    pub internal_pool_id: u64,
    /// External pool receiving the deposit
    pub external_pool_id: u64,
    /// Amount deposited
    pub amount: i128,
    /// Timestamp of the deposit
    pub deposit_time: u64,
    /// Yield earned so far
    pub yield_earned: i128,
}

/// Yield earned by a deposit.
#[derive(Clone, Copy, Debug)]
pub struct YieldEarning {
    /// Deposit the yield is from
    pub deposit_id: u64,
    /// Amount of yield earned
    pub amount: i128,
    /// Timestamp of the earning
    pub earned_at: u64,
    /// APY at the time of earning, in basis points
    pub apy_bps: u32,
}

/// Kind of pool that an allocation goes to.
#[derive(Clone, Copy, Debug, PartialEq, Eq, Structural)]
pub enum PoolType {
    Internal,
    External,
}

/// Allocation of a portfolio to one pool.
#[derive(Clone, Copy, Debug)]
pub struct PoolAllocation {
    /// Pool identifier
    pub pool_id: u64,
    /// Allocated amount
    pub amount: i128,
    /// Share of the total portfolio, in basis points
    pub allocation_percentage_bps: u32,
    /// Kind of pool (internal/external)
    pub pool_type: PoolType,
}

/// Snapshot of a portfolio's composition.
#[derive(Debug)]
pub struct PortfolioSnapshot {
    /// Timestamp of the snapshot
    pub timestamp: u64,
    /// Total portfolio value
    pub total_value: i128,
    /// Allocations across pools
    pub allocations: Vec<PoolAllocation>,
}

/// The pool registered from these arguments.
pub open spec fn registered_pool(
    pool_id: u64,
    protocol_name: String,
    pool_contract: AccountId,
    strategy_type: String,
    now: u64,
) -> ExternalPoolInterface {
    ExternalPoolInterface {
        pool_id,
        protocol_name,
        pool_contract,
        strategy_type,
        is_active: true,
        registered_at: now,
    }
}

/// The next identifier held by a counter, which starts at 1.
pub open spec fn next_id(counter: Option<u64>) -> u64 {
    match counter {
        Some(c) => c,
        None => 1,
    }
}

fn copy_pool(p: &ExternalPoolInterface) -> (r: ExternalPoolInterface)
    ensures
        r == *p,
{
    ExternalPoolInterface {
        pool_id: p.pool_id,
        protocol_name: p.protocol_name.clone(),
        pool_contract: p.pool_contract,
        strategy_type: p.strategy_type.clone(),
        is_active: p.is_active,
        registered_at: p.registered_at,
    }
}

/// Register an external pool: it is appended to the pools, active, under the
/// next pool identifier. Returns the pool and the counter's new value.
pub fn register_external_pool(
    now: u64,
    next_pool_id: Option<u64>,
    pools: &mut Vec<ExternalPoolInterface>,
    protocol_name: String,
    pool_contract: AccountId,
    strategy_type: String,
) -> (r: Result<(ExternalPoolInterface, u64), ContractError>)
    requires
        next_id(next_pool_id) < u64::MAX,
    ensures
        protocol_name@.len() == 0 || strategy_type@.len() == 0 ==> {
            &&& r == Err::<(ExternalPoolInterface, u64), ContractError>(ContractError::InvalidInput)
            &&& final(pools)@ == old(pools)@
        },
        protocol_name@.len() > 0 && strategy_type@.len() > 0 ==> {
            let p = registered_pool(
                next_id(next_pool_id),
                protocol_name,
                pool_contract,
                strategy_type,
                now,
            );
            &&& r == Ok::<(ExternalPoolInterface, u64), ContractError>(
                (p, (next_id(next_pool_id) + 1) as u64),
            )
            &&& final(pools)@ == old(pools)@.push(p)
        },
{
    if protocol_name.as_str().is_empty() || strategy_type.as_str().is_empty() {
        return Err(ContractError::InvalidInput);
    }

    let pool_id: u64 = match next_pool_id {
        Some(id) => id,
        None => 1,
    };

    let pool_interface = ExternalPoolInterface {
        pool_id,
        protocol_name,
        pool_contract,
        strategy_type,
        is_active: true,
        registered_at: now,
    };

    pools.push(copy_pool(&pool_interface));

    Ok((pool_interface, pool_id + 1))
}

/// Deposit assets into an external pool: the deposit is appended under the
/// next deposit identifier. Returns the deposit and the counter's new value.
pub fn deposit_to_external_pool(
    now: u64,
    next_deposit_id: Option<u64>,
    deposits: &mut Vec<ExternalPoolDeposit>,
    internal_pool_id: u64,
    external_pool_id: u64,
    amount: i128,
) -> (r: Result<(ExternalPoolDeposit, u64), ContractError>)
    requires
        amount > 0 ==> next_id(next_deposit_id) < u64::MAX,
    ensures
        amount <= 0 ==> {
            &&& r == Err::<(ExternalPoolDeposit, u64), ContractError>(ContractError::InvalidInput)
            &&& final(deposits)@ == old(deposits)@
        },
        amount > 0 ==> {
            let d = ExternalPoolDeposit {
                deposit_id: next_id(next_deposit_id),
                internal_pool_id,
                external_pool_id,
                amount,
                deposit_time: now,
                yield_earned: 0,
            };
            &&& r == Ok::<(ExternalPoolDeposit, u64), ContractError>(
                (d, (next_id(next_deposit_id) + 1) as u64),
            )
            &&& final(deposits)@ == old(deposits)@.push(d)
        },
{
    if amount <= 0 {
        return Err(ContractError::InvalidInput);
    }

    let deposit_id: u64 = match next_deposit_id {
        Some(id) => id,
        None => 1,
    };

    let deposit = ExternalPoolDeposit {
        deposit_id,
        internal_pool_id,
        external_pool_id,
        amount,
        deposit_time: now,
        yield_earned: 0,
    };
    deposits.push(deposit);

    Ok((deposit, deposit_id + 1))
}

/// Index of the first deposit at or after `i` with this identifier, or -1.
pub open spec fn deposit_index_from(s: Seq<ExternalPoolDeposit>, deposit_id: u64, i: int) -> int
    decreases s.len() - i,
{
    if i < 0 || i >= s.len() {
        -1
    } else if s[i].deposit_id == deposit_id {
        i
    } else {
        deposit_index_from(s, deposit_id, i + 1)
    }
}

/// Index of the first deposit with this identifier, or -1.
pub open spec fn deposit_index(s: Seq<ExternalPoolDeposit>, deposit_id: u64) -> int {
    deposit_index_from(s, deposit_id, 0)
}

/// The deposits after crediting `amount` of yield (saturating) to the first
/// deposit with this identifier.
pub open spec fn credit_yield(s: Seq<ExternalPoolDeposit>, deposit_id: u64, amount: i128) -> Seq<
    ExternalPoolDeposit,
> {
    let k = deposit_index(s, deposit_id);
    if k < 0 {
        s
    } else {
        s.update(
            k,
            ExternalPoolDeposit {
                yield_earned: sat_add(s[k].yield_earned as int, amount as int),
                ..s[k]
            },
        )
    }
}

proof fn lemma_deposit_index_from(s: Seq<ExternalPoolDeposit>, deposit_id: u64, i: int)
    requires
        0 <= i <= s.len(),
    ensures
        deposit_index_from(s, deposit_id, i) == -1 || (i <= deposit_index_from(s, deposit_id, i)
            < s.len() && s[deposit_index_from(s, deposit_id, i)].deposit_id == deposit_id),
        forall|j: int|
            i <= j < s.len() && (deposit_index_from(s, deposit_id, i) == -1 || j
                < deposit_index_from(s, deposit_id, i)) ==> s[j].deposit_id != deposit_id,
    decreases s.len() - i,
{
    if i < s.len() && s[i].deposit_id != deposit_id {
        lemma_deposit_index_from(s, deposit_id, i + 1);
    }
}

/// Record the yield earned by a deposit: the earning is appended and the
/// first deposit with that identifier is credited with the amount.
pub fn record_yield_earning(
    now: u64,
    earnings: &mut Vec<YieldEarning>,
    deposits: &mut Vec<ExternalPoolDeposit>,
    deposit_id: u64,
    amount: i128,
    apy_bps: u32,
) -> (r: Result<YieldEarning, ContractError>)
    ensures
        amount <= 0 || apy_bps > 10_000 ==> {
            &&& r == Err::<YieldEarning, ContractError>(ContractError::InvalidInput)
            &&& final(earnings)@ == old(earnings)@
            &&& final(deposits)@ == old(deposits)@
        },
        amount > 0 && apy_bps <= 10_000 ==> {
            let e = YieldEarning { deposit_id, amount, earned_at: now, apy_bps };
            &&& r == Ok::<YieldEarning, ContractError>(e)
            &&& final(earnings)@ == old(earnings)@.push(e)
            &&& final(deposits)@ == credit_yield(old(deposits)@, deposit_id, amount)
        },
{
    if amount <= 0 || apy_bps > 10_000 {
        return Err(ContractError::InvalidInput);
    }

    let earning = YieldEarning { deposit_id, amount, earned_at: now, apy_bps };
    earnings.push(earning);

    let ghost orig = deposits@;
    proof {
        lemma_deposit_index_from(orig, deposit_id, 0);
    }
    let mut i: usize = 0;
    while i < deposits.len()
        invariant
            deposits@ == orig,
            orig == old(deposits)@,
            amount > 0,
            apy_bps <= 10_000,
            earning == (YieldEarning { deposit_id, amount, earned_at: now, apy_bps }),
            earnings@ == old(earnings)@.push(earning),
            i <= orig.len(),
            forall|j: int| 0 <= j < i ==> orig[j].deposit_id != deposit_id,
            deposit_index(orig, deposit_id) == -1 || i <= deposit_index(orig, deposit_id),
            deposit_index(orig, deposit_id) == -1 || (0 <= deposit_index(orig, deposit_id) < orig.len()
                && orig[deposit_index(orig, deposit_id)].deposit_id == deposit_id),
            forall|j: int|
                0 <= j < orig.len() && (deposit_index(orig, deposit_id) == -1 || j < deposit_index(
                    orig,
                    deposit_id,
                )) ==> orig[j].deposit_id != deposit_id,
        decreases orig.len() - i,
    {
        if deposits[i].deposit_id == deposit_id {
            let mut deposit = deposits[i];
            deposit.yield_earned = saturating_add_i128(deposit.yield_earned, amount);
            deposits.set(i, deposit);
            return Ok(earning);
        }
        i = i + 1;
    }

    Ok(earning)
}

/// Saturating sum of the yield earned by the deposits of an internal pool, in order.
pub open spec fn pool_yield(s: Seq<ExternalPoolDeposit>, internal_pool_id: u64) -> i128
    decreases s.len(),
{
    if s.len() == 0 {
        0
    } else {
        let rest = pool_yield(s.drop_last(), internal_pool_id);
        if s.last().internal_pool_id == internal_pool_id {
            sat_add(rest as int, s.last().yield_earned as int)
        } else {
            rest
        }
    }
}

/// Saturating sum of the amounts of all deposits, in order.
pub open spec fn deposits_value(s: Seq<ExternalPoolDeposit>) -> i128
    decreases s.len(),
{
    if s.len() == 0 {
        0
    } else {
        sat_add(deposits_value(s.drop_last()) as int, s.last().amount as int)
    }
}

/// Claim all the yield accumulated by an internal pool's deposits.
pub fn claim_all_yields(deposits: &Vec<ExternalPoolDeposit>, internal_pool_id: u64) -> (r: Result<
    i128,
    ContractError,
>)
    ensures
        r == Ok::<i128, ContractError>(pool_yield(deposits@, internal_pool_id)),
{
    let mut total_yields: i128 = 0;
    let mut i: usize = 0;
    while i < deposits.len()
        invariant
            i <= deposits@.len(),
            total_yields == pool_yield(deposits@.take(i as int), internal_pool_id),
        decreases deposits@.len() - i,
    {
        assert(deposits@.take(i as int + 1).drop_last() =~= deposits@.take(i as int));
        let deposit = deposits[i];
        if deposit.internal_pool_id == internal_pool_id {
            total_yields = saturating_add_i128(total_yields, deposit.yield_earned);
        }
        i = i + 1;
    }
    assert(deposits@.take(deposits@.len() as int) =~= deposits@);
    Ok(total_yields)
}

/// The yield aggregated from all of an internal pool's deposits.
pub fn get_aggregated_yield(deposits: &Vec<ExternalPoolDeposit>, internal_pool_id: u64) -> (r: i128)
    ensures
        r == pool_yield(deposits@, internal_pool_id),
{
    let mut total: i128 = 0;
    let mut i: usize = 0;
    while i < deposits.len()
        invariant
            i <= deposits@.len(),
            total == pool_yield(deposits@.take(i as int), internal_pool_id),
        decreases deposits@.len() - i,
    {
        assert(deposits@.take(i as int + 1).drop_last() =~= deposits@.take(i as int));
        if deposits[i].internal_pool_id == internal_pool_id {
            total = saturating_add_i128(total, deposits[i].yield_earned);
        }
        i = i + 1;
    }
    assert(deposits@.take(deposits@.len() as int) =~= deposits@);
    total
}

/// Total value locked across all external pools.
pub fn get_total_external_tvl(deposits: &Vec<ExternalPoolDeposit>) -> (r: i128)
    ensures
        r == deposits_value(deposits@),
{
    let mut total: i128 = 0;
    let mut i: usize = 0;
    while i < deposits.len()
        invariant
            i <= deposits@.len(),
            total == deposits_value(deposits@.take(i as int)),
        decreases deposits@.len() - i,
    {
        assert(deposits@.take(i as int + 1).drop_last() =~= deposits@.take(i as int));
        total = saturating_add_i128(total, deposits[i].amount);
        i = i + 1;
    }
    assert(deposits@.take(deposits@.len() as int) =~= deposits@);
    total
}

/// The deposits made by an internal pool, in order.
pub open spec fn pool_deposits(s: Seq<ExternalPoolDeposit>, internal_pool_id: u64) -> Seq<
    ExternalPoolDeposit,
>
    decreases s.len(),
{
    if s.len() == 0 {
        Seq::empty()
    } else {
        let rest = pool_deposits(s.drop_last(), internal_pool_id);
        if s.last().internal_pool_id == internal_pool_id {
            rest.push(s.last())
        } else {
            rest
        }
    }
}

/// Sum of the amounts of the deposits.
pub open spec fn amount_sum(s: Seq<ExternalPoolDeposit>) -> int
    decreases s.len(),
{
    if s.len() == 0 {
        0
    } else {
        amount_sum(s.drop_last()) + s.last().amount
    }
}

/// Summing the amounts of the deposits in order never leaves `i128`.
pub open spec fn amount_sums_fit(s: Seq<ExternalPoolDeposit>) -> bool {
    forall|k: int| 0 <= k <= s.len() ==> fits_i128(#[trigger] amount_sum(s.take(k)))
}

/// The amount scaled to basis points stays within `u128` (the amount taken as `u128`).
pub open spec fn amount_scalable(d: ExternalPoolDeposit) -> bool {
    (d.amount as u128) * 10_000 <= u128::MAX
}

/// Share of `total` that `amount` makes up, in basis points, computed on
/// `u128` and truncated to `u32`.
pub open spec fn share_bps(amount: i128, total: i128) -> u32 {
    ((amount as u128) * 10_000 / (total as u128) as int) as u32
}

/// The allocation of a deposit within a portfolio of this total value.
pub open spec fn allocation_of(d: ExternalPoolDeposit, total: i128) -> PoolAllocation {
    PoolAllocation {
        pool_id: d.external_pool_id,
        amount: d.amount,
        allocation_percentage_bps: share_bps(d.amount, total),
        pool_type: PoolType::External,
    }
}

/// The allocations of an internal pool's deposits, in order.
pub open spec fn pool_allocations(s: Seq<ExternalPoolDeposit>, internal_pool_id: u64, total: i128) -> Seq<
    PoolAllocation,
> {
    pool_deposits(s, internal_pool_id).map_values(|d: ExternalPoolDeposit| allocation_of(d, total))
}

/// Allocations of the deposits of an internal pool, computed in one pass.
fn allocations_for(deposits: &Vec<ExternalPoolDeposit>, internal_pool_id: u64, total: i128) -> (r:
    Vec<PoolAllocation>)
    requires
        total != 0,
        forall|i: int|
            0 <= i < deposits@.len() && (#[trigger] deposits@[i]).internal_pool_id
                == internal_pool_id ==> amount_scalable(deposits@[i]),
    ensures
        r@ == pool_allocations(deposits@, internal_pool_id, total),
{
    let mut allocations: Vec<PoolAllocation> = Vec::new();
    let mut i: usize = 0;
    while i < deposits.len()
        invariant
            total != 0,
            i <= deposits@.len(),
            forall|i: int|
                0 <= i < deposits@.len() && (#[trigger] deposits@[i]).internal_pool_id
                    == internal_pool_id ==> amount_scalable(deposits@[i]),
            allocations@ == pool_allocations(deposits@.take(i as int), internal_pool_id, total),
        decreases deposits@.len() - i,
    {
        let ghost before = deposits@.take(i as int);
        assert(deposits@.take(i as int + 1).drop_last() =~= before);
        let deposit = deposits[i];
        if deposit.internal_pool_id == internal_pool_id {
            assert(amount_scalable(deposits@[i as int]));
            assert(total as u128 != 0) by (bit_vector)
                requires total != 0i128;
            let allocation_percentage_bps = #[verifier::truncate] (((deposit.amount as u128
                * 10_000) / (total as u128)) as u32);
            let allocation = PoolAllocation {
                pool_id: deposit.external_pool_id,
                amount: deposit.amount,
                allocation_percentage_bps,
                pool_type: PoolType::External,
            };
            allocations.push(allocation);
            proof {
                let after = deposits@.take(i as int + 1);
                assert(pool_deposits(after, internal_pool_id) == pool_deposits(
                    before,
                    internal_pool_id,
                ).push(deposit));
                assert(allocations@ =~= pool_allocations(after, internal_pool_id, total));
            }
        } else {
            proof {
                let after = deposits@.take(i as int + 1);
                assert(pool_deposits(after, internal_pool_id) == pool_deposits(
                    before,
                    internal_pool_id,
                ));
            }
        }
        i = i + 1;
    }
    assert(deposits@.take(deposits@.len() as int) =~= deposits@);
    allocations
}

/// A copy of a list of allocations.
fn copy_allocations(v: &Vec<PoolAllocation>) -> (r: Vec<PoolAllocation>)
    ensures
        r@ == v@,
{
    let mut out: Vec<PoolAllocation> = Vec::new();
    let mut i: usize = 0;
    while i < v.len()
        invariant
            i <= v@.len(),
            out@ == v@.take(i as int),
        decreases v@.len() - i,
    {
        out.push(v[i]);
        assert(out@ =~= v@.take(i as int + 1));
        i = i + 1;
    }
    assert(v@.take(i as int) =~= v@);
    out
}

/// Create a snapshot of an internal pool's portfolio at a total value: one
/// allocation per deposit of the pool. The snapshot is appended to the
/// stored snapshots.
pub fn create_portfolio_snapshot(
    now: u64,
    deposits: &Vec<ExternalPoolDeposit>,
    snapshots: &mut Vec<PortfolioSnapshot>,
    internal_pool_id: u64,
    total_value: i128,
) -> (r: Result<PortfolioSnapshot, ContractError>)
    requires
        total_value > 0 ==> forall|i: int|
            0 <= i < deposits@.len() && (#[trigger] deposits@[i]).internal_pool_id
                == internal_pool_id ==> amount_scalable(deposits@[i]),
    ensures
        total_value <= 0 ==> {
            &&& r matches Err(e) && e == ContractError::InvalidInput
            &&& final(snapshots)@ == old(snapshots)@
        },
        total_value > 0 ==> {
            &&& r matches Ok(snap) && snap.timestamp == now && snap.total_value == total_value
                && snap.allocations@ == pool_allocations(deposits@, internal_pool_id, total_value)
            &&& final(snapshots)@.len() == old(snapshots)@.len() + 1
            &&& forall|i: int|
                0 <= i < old(snapshots)@.len() ==> final(snapshots)@[i] == old(snapshots)@[i]
            &&& final(snapshots)@.last().timestamp == now
            &&& final(snapshots)@.last().total_value == total_value
            &&& final(snapshots)@.last().allocations@ == pool_allocations(
                deposits@,
                internal_pool_id,
                total_value,
            )
        },
{
    if total_value <= 0 {
        return Err(ContractError::InvalidInput);
    }
    let allocations = allocations_for(deposits, internal_pool_id, total_value);
    let stored = copy_allocations(&allocations);
    snapshots.push(PortfolioSnapshot { timestamp: now, total_value, allocations: stored });
    Ok(PortfolioSnapshot { timestamp: now, total_value, allocations })
}

proof fn lemma_pool_total(s: Seq<ExternalPoolDeposit>, internal_pool_id: u64, k: int)
    requires
        0 <= k < s.len(),
    ensures
        pool_deposits(s.take(k + 1), internal_pool_id) == if s[k].internal_pool_id
            == internal_pool_id {
            pool_deposits(s.take(k), internal_pool_id).push(s[k])
        } else {
            pool_deposits(s.take(k), internal_pool_id)
        },
{
    assert(s.take(k + 1).drop_last() =~= s.take(k));
}

/// Sum of the amounts of an internal pool's deposits, adding them in order
/// with unchecked arithmetic.
fn pool_amount_total(deposits: &Vec<ExternalPoolDeposit>, internal_pool_id: u64) -> (r: i128)
    requires
        amount_sums_fit(pool_deposits(deposits@, internal_pool_id)),
    ensures
        r == amount_sum(pool_deposits(deposits@, internal_pool_id)),
{
    let ghost all = pool_deposits(deposits@, internal_pool_id);
    let mut total: i128 = 0;
    let mut i: usize = 0;
    proof {
        lemma_pool_deposits_prefix(deposits@, internal_pool_id, 0);
    }
    while i < deposits.len()
        invariant
            i <= deposits@.len(),
            all == pool_deposits(deposits@, internal_pool_id),
            amount_sums_fit(all),
            pool_deposits(deposits@.take(i as int), internal_pool_id) == all.take(
                pool_deposits(deposits@.take(i as int), internal_pool_id).len() as int,
            ),
            pool_deposits(deposits@.take(i as int), internal_pool_id).len() <= all.len(),
            total == amount_sum(pool_deposits(deposits@.take(i as int), internal_pool_id)),
        decreases deposits@.len() - i,
    {
        proof {
            lemma_pool_total(deposits@, internal_pool_id, i as int);
            lemma_pool_deposits_prefix(deposits@, internal_pool_id, i as int + 1);
        }
        let deposit = deposits[i];
        if deposit.internal_pool_id == internal_pool_id {
            proof {
                let before = pool_deposits(deposits@.take(i as int), internal_pool_id);
                let after = pool_deposits(deposits@.take(i as int + 1), internal_pool_id);
                assert(after.drop_last() =~= before);
                assert(fits_i128(amount_sum(all.take(after.len() as int))));
            }
            total = total + deposit.amount;
        }
        i = i + 1;
    }
    assert(deposits@.take(deposits@.len() as int) =~= deposits@);
    assert(all.take(all.len() as int) =~= all);
    total
}

proof fn lemma_pool_deposits_prefix(s: Seq<ExternalPoolDeposit>, internal_pool_id: u64, k: int)
    requires
        0 <= k <= s.len(),
    ensures
        pool_deposits(s.take(k), internal_pool_id).len() <= pool_deposits(s, internal_pool_id).len(),
        pool_deposits(s.take(k), internal_pool_id) == pool_deposits(s, internal_pool_id).take(
            pool_deposits(s.take(k), internal_pool_id).len() as int,
        ),
    decreases s.len() - k,
{
    if k == s.len() {
        assert(s.take(k) =~= s);
        assert(pool_deposits(s, internal_pool_id).take(
            pool_deposits(s, internal_pool_id).len() as int,
        ) =~= pool_deposits(s, internal_pool_id));
    } else {
        lemma_pool_deposits_prefix(s, internal_pool_id, k + 1);
        lemma_pool_total(s, internal_pool_id, k);
        let a = pool_deposits(s.take(k), internal_pool_id);
        let b = pool_deposits(s.take(k + 1), internal_pool_id);
        let full = pool_deposits(s, internal_pool_id);
        if s[k].internal_pool_id == internal_pool_id {
            assert(a =~= b.drop_last());
            assert(a =~= full.take(a.len() as int));
        }
    }
}

/// Current allocation of an internal pool's portfolio: each of its deposits
/// as a share of the pool's total deposited amount. Empty when that total is zero.
pub fn get_portfolio_allocation(deposits: &Vec<ExternalPoolDeposit>, internal_pool_id: u64) -> (r:
    Vec<PoolAllocation>)
    requires
        amount_sums_fit(pool_deposits(deposits@, internal_pool_id)),
        amount_sum(pool_deposits(deposits@, internal_pool_id)) != 0 ==> forall|i: int|
            0 <= i < deposits@.len() && (#[trigger] deposits@[i]).internal_pool_id
                == internal_pool_id ==> amount_scalable(deposits@[i]),
    ensures
        ({
            let total = amount_sum(pool_deposits(deposits@, internal_pool_id));
            if total == 0 {
                r@ == Seq::<PoolAllocation>::empty()
            } else {
                r@ == pool_allocations(deposits@, internal_pool_id, total as i128)
            }
        }),
{
    let total = pool_amount_total(deposits, internal_pool_id);
    if total == 0 {
        return Vec::new();
    }
    allocations_for(deposits, internal_pool_id, total)
}

/// The active pools, in order.
pub open spec fn active_pools(s: Seq<ExternalPoolInterface>) -> Seq<ExternalPoolInterface>
    decreases s.len(),
{
    if s.len() == 0 {
        Seq::empty()
    } else if s.last().is_active {
        active_pools(s.drop_last()).push(s.last())
    } else {
        active_pools(s.drop_last())
    }
}

/// All currently active external pools.
pub fn get_active_pools(pools: &Vec<ExternalPoolInterface>) -> (r: Vec<ExternalPoolInterface>)
    ensures
        r@ == active_pools(pools@),
{
    let mut active: Vec<ExternalPoolInterface> = Vec::new();
    let mut i: usize = 0;
    while i < pools.len()
        invariant
            i <= pools@.len(),
            active@ == active_pools(pools@.take(i as int)),
        decreases pools@.len() - i,
    {
        assert(pools@.take(i as int + 1).drop_last() =~= pools@.take(i as int));
        if pools[i].is_active {
            active.push(copy_pool(&pools[i]));
        }
        i = i + 1;
    }
    assert(pools@.take(pools@.len() as int) =~= pools@);
    active
}

/// Index of the first pool at or after `i` with this identifier, or -1.
pub open spec fn pool_index_from(s: Seq<ExternalPoolInterface>, pool_id: u64, i: int) -> int
    decreases s.len() - i,
{
    if i < 0 || i >= s.len() {
        -1
    } else if s[i].pool_id == pool_id {
        i
    } else {
        pool_index_from(s, pool_id, i + 1)
    }
}

/// Index of the first pool with this identifier, or -1.
pub open spec fn pool_index(s: Seq<ExternalPoolInterface>, pool_id: u64) -> int {
    pool_index_from(s, pool_id, 0)
}

proof fn lemma_pool_index_from(s: Seq<ExternalPoolInterface>, pool_id: u64, i: int)
    requires
        0 <= i <= s.len(),
    ensures
        pool_index_from(s, pool_id, i) == -1 || (i <= pool_index_from(s, pool_id, i) < s.len()
            && s[pool_index_from(s, pool_id, i)].pool_id == pool_id),
        forall|j: int|
            i <= j < s.len() && (pool_index_from(s, pool_id, i) == -1 || j < pool_index_from(
                s,
                pool_id,
                i,
            )) ==> s[j].pool_id != pool_id,
    decreases s.len() - i,
{
    if i < s.len() && s[i].pool_id != pool_id {
        lemma_pool_index_from(s, pool_id, i + 1);
    }
}

/// Find the first pool with this identifier.
fn find_pool(pools: &Vec<ExternalPoolInterface>, pool_id: u64) -> (r: Option<usize>)
    ensures
        pool_index(pools@, pool_id) == -1 ==> r is None,
        pool_index(pools@, pool_id) != -1 ==> 0 <= pool_index(pools@, pool_id) < pools@.len(),
        r matches Some(k) ==> k as int == pool_index(pools@, pool_id),
        pool_index(pools@, pool_id) != -1 ==> r is Some,
        r matches Some(k) ==> k < pools@.len() && pools@[k as int].pool_id == pool_id,
{
    proof {
        lemma_pool_index_from(pools@, pool_id, 0);
    }
    let mut i: usize = 0;
    while i < pools.len()
        invariant
            i <= pools@.len(),
            forall|j: int| 0 <= j < i ==> pools@[j].pool_id != pool_id,
            pool_index(pools@, pool_id) == -1 || i <= pool_index(pools@, pool_id),
            pool_index(pools@, pool_id) == -1 || (0 <= pool_index(pools@, pool_id) < pools@.len()
                && pools@[pool_index(pools@, pool_id)].pool_id == pool_id),
            forall|j: int|
                0 <= j < pools@.len() && (pool_index(pools@, pool_id) == -1 || j < pool_index(
                    pools@,
                    pool_id,
                )) ==> pools@[j].pool_id != pool_id,
        decreases pools@.len() - i,
    {
        if pools[i].pool_id == pool_id {
            return Some(i);
        }
        i = i + 1;
    }
    None
}

/// The first external pool with this identifier.
pub fn get_external_pool(pools: &Vec<ExternalPoolInterface>, pool_id: u64) -> (r: Result<
    ExternalPoolInterface,
    ContractError,
>)
    ensures
        pool_index(pools@, pool_id) == -1 ==> (r matches Err(e) && e == ContractError::NotFound),
        pool_index(pools@, pool_id) != -1 ==> r == Ok::<ExternalPoolInterface, ContractError>(
            pools@[pool_index(pools@, pool_id)],
        ),
{
    let found = find_pool(pools, pool_id);
    match found {
        Some(k) => {
            let p = copy_pool(&pools[k]);
            Ok(p)
        },
        None => Err(ContractError::NotFound),
    }
}

/// Deactivate the first external pool with this identifier.
pub fn deactivate_pool(pools: &mut Vec<ExternalPoolInterface>, pool_id: u64) -> (r: Result<
    (),
    ContractError,
>)
    ensures
        pool_index(old(pools)@, pool_id) == -1 ==> {
            &&& r matches Err(e) && e == ContractError::NotFound
            &&& final(pools)@ == old(pools)@
        },
        pool_index(old(pools)@, pool_id) != -1 ==> {
            let k = pool_index(old(pools)@, pool_id);
            &&& r is Ok
            &&& final(pools)@ == old(pools)@.update(
                k,
                ExternalPoolInterface { is_active: false, ..old(pools)@[k] },
            )
        },
        final(pools)@ == deactivated(old(pools)@, pool_id),
{
    match find_pool(pools, pool_id) {
        Some(k) => {
            let mut pool = copy_pool(&pools[k]);
            pool.is_active = false;
            pools.set(k, pool);
            Ok(())
        },
        None => Err(ContractError::NotFound),
    }
}

/// Weight of a deposit within a total, in basis points, computed on `u128`
/// and truncated to `u64`.
pub open spec fn deposit_weight(d: ExternalPoolDeposit, total: i128) -> u64 {
    ((d.amount as u128) * 10_000 / (total as u128) as int) as u64
}

/// `u128::saturating_add`.
pub open spec fn sat_add_u128(a: u128, b: int) -> u128 {
    if a + b > u128::MAX {
        u128::MAX
    } else {
        (a + b) as u128
    }
}

/// Running sums `(Σ apy·weight, Σ weight)`, continued from `acc` over the
/// earnings, in order, of one deposit (each addition saturating).
pub open spec fn deposit_apy_sums(
    earnings: Seq<YieldEarning>,
    d: ExternalPoolDeposit,
    total: i128,
    acc: (u128, u128),
) -> (u128, u128)
    decreases earnings.len(),
{
    if earnings.len() == 0 {
        acc
    } else {
        let w = deposit_weight(d, total);
        let next = if earnings[0].deposit_id == d.deposit_id {
            (sat_add_u128(acc.0, earnings[0].apy_bps * w), sat_add_u128(acc.1, w as int))
        } else {
            acc
        };
        deposit_apy_sums(earnings.drop_first(), d, total, next)
    }
}

/// Running sums `(Σ apy·weight, Σ weight)`, continued from `acc` over the
/// deposits, in order, and their earnings.
pub open spec fn apy_sums(
    deposits: Seq<ExternalPoolDeposit>,
    earnings: Seq<YieldEarning>,
    total: i128,
    acc: (u128, u128),
) -> (u128, u128)
    decreases deposits.len(),
{
    if deposits.len() == 0 {
        acc
    } else {
        apy_sums(
            deposits.drop_first(),
            earnings,
            total,
            deposit_apy_sums(earnings, deposits[0], total, acc),
        )
    }
}

/// The weighted average `num / den`, or zero where nothing was weighed.
pub open spec fn weighted_average(sums: (u128, u128)) -> u32 {
    if sums.1 == 0 {
        0
    } else {
        (sums.0 / sums.1) as u32
    }
}

/// Computing the weighted APY of these deposits never divides by zero and
/// scales each amount within `u128`.
pub open spec fn weighted_apy_defined(
    deposits: Seq<ExternalPoolDeposit>,
    earnings: Seq<YieldEarning>,
    total: i128,
) -> bool {
    forall|i: int, j: int|
        0 <= i < deposits.len() && 0 <= j < earnings.len() && (#[trigger] earnings[j]).deposit_id
            == (#[trigger] deposits[i]).deposit_id ==> {
            &&& amount_scalable(deposits[i])
            &&& total as u128 != 0
        }
}

/// The deposits of an internal pool, in order.
fn filter_pool_deposits(deposits: &Vec<ExternalPoolDeposit>, internal_pool_id: u64) -> (r: Vec<
    ExternalPoolDeposit,
>)
    ensures
        r@ == pool_deposits(deposits@, internal_pool_id),
{
    let mut out: Vec<ExternalPoolDeposit> = Vec::new();
    let mut i: usize = 0;
    while i < deposits.len()
        invariant
            i <= deposits@.len(),
            out@ == pool_deposits(deposits@.take(i as int), internal_pool_id),
        decreases deposits@.len() - i,
    {
        assert(deposits@.take(i as int + 1).drop_last() =~= deposits@.take(i as int));
        if deposits[i].internal_pool_id == internal_pool_id {
            out.push(deposits[i]);
        }
        i = i + 1;
    }
    assert(deposits@.take(deposits@.len() as int) =~= deposits@);
    out
}

/// Weighted average APY of an internal pool: the average of its deposits'
/// earnings' APYs, each earning weighted by its deposit's share of the pool's
/// total deposited amount (in basis points); zero where no earning weighs
/// anything.
pub fn calculate_weighted_avg_apy(
    earnings: &Vec<YieldEarning>,
    deposits: &Vec<ExternalPoolDeposit>,
    internal_pool_id: u64,
) -> (r: Result<u32, ContractError>)
    requires
        amount_sums_fit(pool_deposits(deposits@, internal_pool_id)),
        weighted_apy_defined(
            pool_deposits(deposits@, internal_pool_id),
            earnings@,
            amount_sum(pool_deposits(deposits@, internal_pool_id)) as i128,
        ),
    ensures
        ({
            let pd = pool_deposits(deposits@, internal_pool_id);
            if pd.len() == 0 {
                r == Err::<u32, ContractError>(ContractError::NotFound)
            } else {
                r == Ok::<u32, ContractError>(
                    weighted_average(apy_sums(pd, earnings@, amount_sum(pd) as i128, (0, 0))),
                )
            }
        }),
{
    let pool_deposits = filter_pool_deposits(deposits, internal_pool_id);
    if pool_deposits.len() == 0 {
        return Err(ContractError::NotFound);
    }
    let total_amount = pool_amount_total(deposits, internal_pool_id);
    let ghost pd = pool_deposits@;
    let ghost es = earnings@;

    let mut weighted_sum: u128 = 0;
    let mut weight_sum: u128 = 0;
    let mut i: usize = 0;
    assert(pd.skip(0) =~= pd);
    while i < pool_deposits.len()
        invariant
            pd == pool_deposits@,
            es == earnings@,
            i <= pd.len(),
            weighted_apy_defined(pd, es, total_amount),
            apy_sums(pd, es, total_amount, (0, 0)) == apy_sums(
                pd.skip(i as int),
                es,
                total_amount,
                (weighted_sum, weight_sum),
            ),
        decreases pd.len() - i,
    {
        let deposit = pool_deposits[i];
        assert(pd.skip(i as int)[0] == deposit);
        assert(pd.skip(i as int).drop_first() =~= pd.skip(i as int + 1));
        let ghost start = (weighted_sum, weight_sum);
        let mut j: usize = 0;
        assert(es.skip(0) =~= es);
        while j < earnings.len()
            invariant
                pd == pool_deposits@,
                es == earnings@,
                i < pd.len(),
                deposit == pd[i as int],
                j <= es.len(),
                weighted_apy_defined(pd, es, total_amount),
                deposit_apy_sums(es, deposit, total_amount, start) == deposit_apy_sums(
                    es.skip(j as int),
                    deposit,
                    total_amount,
                    (weighted_sum, weight_sum),
                ),
            decreases es.len() - j,
        {
            let earning = earnings[j];
            assert(es.skip(j as int)[0] == earning);
            assert(es.skip(j as int).drop_first() =~= es.skip(j as int + 1));
            if earning.deposit_id == deposit.deposit_id {
                assert(pd[i as int] == deposit && es[j as int] == earning);
                let weight = #[verifier::truncate] (((deposit.amount as u128 * 10_000)
                    / (total_amount as u128)) as u64);
                assert(earning.apy_bps * weight <= u128::MAX) by (nonlinear_arith)
                    requires earning.apy_bps <= u32::MAX, weight <= u64::MAX;
                weighted_sum = weighted_sum.saturating_add(earning.apy_bps as u128 * weight as u128);
                weight_sum = weight_sum.saturating_add(weight as u128);
            }
            j = j + 1;
        }
        assert(es.skip(es.len() as int) =~= Seq::<YieldEarning>::empty());
        i = i + 1;
    }
    assert(pd.skip(pd.len() as int) =~= Seq::<ExternalPoolDeposit>::empty());
    if weight_sum == 0 {
        return Ok(0);
    }
    Ok(#[verifier::truncate] ((weighted_sum / weight_sum) as u32))
}

// ---------------------------------------------------------------------------
// Properties of pools and allocations
// ---------------------------------------------------------------------------

/// Sum of the allocation shares, in basis points.
pub open spec fn share_total(s: Seq<PoolAllocation>) -> int
    decreases s.len(),
{
    if s.len() == 0 {
        0
    } else {
        share_total(s.drop_last()) + s.last().allocation_percentage_bps
    }
}

proof fn lemma_pool_deposits_positive(s: Seq<ExternalPoolDeposit>, internal_pool_id: u64)
    requires
        forall|i: int|
            0 <= i < s.len() && (#[trigger] s[i]).internal_pool_id == internal_pool_id ==> s[i].amount
                > 0,
    ensures
        forall|i: int|
            0 <= i < pool_deposits(s, internal_pool_id).len() ==> (#[trigger] pool_deposits(
                s,
                internal_pool_id,
            )[i]).amount > 0,
    decreases s.len(),
{
    if s.len() > 0 {
        let t = s.drop_last();
        assert forall|i: int|
            0 <= i < t.len() && (#[trigger] t[i]).internal_pool_id == internal_pool_id implies t[i].amount
            > 0 by {
            assert(t[i] == s[i]);
        }
        lemma_pool_deposits_positive(t, internal_pool_id);
        let rest = pool_deposits(t, internal_pool_id);
        if s.last().internal_pool_id == internal_pool_id {
            assert(s[s.len() - 1].amount > 0);
            assert forall|i: int|
                0 <= i < pool_deposits(s, internal_pool_id).len() implies (#[trigger] pool_deposits(
                s,
                internal_pool_id,
            )[i]).amount > 0 by {
                if i < rest.len() {
                    assert(pool_deposits(s, internal_pool_id)[i] == rest[i]);
                }
            }
        }
    }
}

proof fn lemma_amount_sum_bounds(s: Seq<ExternalPoolDeposit>)
    requires
        forall|i: int| 0 <= i < s.len() ==> (#[trigger] s[i]).amount > 0,
    ensures
        forall|i: int| 0 <= i < s.len() ==> (#[trigger] s[i]).amount <= amount_sum(s),
        s.len() > 0 ==> amount_sum(s) > 0,
        amount_sum(s) >= 0,
    decreases s.len(),
{
    if s.len() > 0 {
        let t = s.drop_last();
        assert forall|i: int| 0 <= i < t.len() implies (#[trigger] t[i]).amount > 0 by {
            assert(t[i] == s[i]);
        }
        lemma_amount_sum_bounds(t);
        assert(s[s.len() - 1].amount > 0);
        assert forall|i: int| 0 <= i < s.len() implies (#[trigger] s[i]).amount <= amount_sum(s) by {
            if i < s.len() - 1 {
                assert(s.drop_last()[i] == s[i]);
            }
        }
    }
}

proof fn lemma_share_total_bound(ds: Seq<ExternalPoolDeposit>, total: i128)
    requires
        total > 0,
        forall|i: int| 0 <= i < ds.len() ==> 0 < (#[trigger] ds[i]).amount <= total,
    ensures
        share_total(ds.map_values(|d: ExternalPoolDeposit| allocation_of(d, total))) * total
            <= amount_sum(ds) * 10_000,
    decreases ds.len(),
{
    if ds.len() > 0 {
        let f = |d: ExternalPoolDeposit| allocation_of(d, total);
        let rest = ds.drop_last();
        lemma_share_total_bound(rest, total);
        assert(ds.map_values(f).drop_last() =~= rest.map_values(f));
        let d = ds.last();
        let a = d.amount as int;
        let t = total as int;
        assert(d.amount as u128 == a);
        assert(total as u128 == t);
        let q = (a * 10_000) / t;
        vstd::arithmetic::div_mod::lemma_fundamental_div_mod(a * 10_000, t);
        assert(q <= 10_000) by {
            vstd::arithmetic::div_mod::lemma_div_is_ordered(a * 10_000, t * 10_000, t);
            vstd::arithmetic::div_mod::lemma_div_by_multiple(10_000, t);
            assert(t * 10_000 == 10_000 * t);
        }
        assert(q >= 0) by {
            vstd::arithmetic::div_mod::lemma_div_pos_is_pos(a * 10_000, t);
        }
        assert(ds.map_values(f).last().allocation_percentage_bps == q);
        assert(q * t <= a * 10_000) by (nonlinear_arith)
            requires a * 10_000 == t * q + (a * 10_000) % t, (a * 10_000) % t >= 0;
        let sr = share_total(rest.map_values(f));
        assert((sr + q) * t == sr * t + q * t) by (nonlinear_arith);
        assert(amount_sum(ds) * 10_000 == amount_sum(rest) * 10_000 + a * 10_000);
    }
}

/// When every deposit of a pool holds a positive amount, the shares of its
/// current allocation add up to at most 100% (10000 basis points).
pub proof fn lemma_allocation_shares_at_most_whole(
    deposits: Seq<ExternalPoolDeposit>,
    internal_pool_id: u64,
)
    requires
        forall|i: int|
            0 <= i < deposits.len() && (#[trigger] deposits[i]).internal_pool_id
                == internal_pool_id ==> deposits[i].amount > 0,
        fits_i128(amount_sum(pool_deposits(deposits, internal_pool_id))),
        pool_deposits(deposits, internal_pool_id).len() > 0,
    ensures
        share_total(
            pool_allocations(
                deposits,
                internal_pool_id,
                amount_sum(pool_deposits(deposits, internal_pool_id)) as i128,
            ),
        ) <= 10_000,
{
    let ds = pool_deposits(deposits, internal_pool_id);
    lemma_pool_deposits_positive(deposits, internal_pool_id);
    lemma_amount_sum_bounds(ds);
    let total = amount_sum(ds) as i128;
    lemma_share_total_bound(ds, total);
    let st = share_total(pool_allocations(deposits, internal_pool_id, total));
    assert(st * total <= total * 10_000);
    assert(st <= 10_000) by (nonlinear_arith)
        requires st * total <= total * 10_000, total > 0;
}

/// Pool identifiers that occur once in the list.
pub open spec fn pool_ids_unique(s: Seq<ExternalPoolInterface>) -> bool {
    forall|i: int, j: int|
        0 <= i < s.len() && 0 <= j < s.len() && i != j ==> (#[trigger] s[i]).pool_id != (
        #[trigger] s[j]).pool_id
}

proof fn lemma_active_pools_from(s: Seq<ExternalPoolInterface>)
    ensures
        forall|k: int|
            0 <= k < active_pools(s).len() ==> (#[trigger] active_pools(s)[k]).is_active
                && s.contains(active_pools(s)[k]),
    decreases s.len(),
{
    if s.len() > 0 {
        lemma_active_pools_from(s.drop_last());
        let rest = active_pools(s.drop_last());
        assert forall|k: int| 0 <= k < active_pools(s).len() implies (#[trigger] active_pools(
            s,
        )[k]).is_active && s.contains(active_pools(s)[k]) by {
            if k < rest.len() {
                assert(active_pools(s)[k] == rest[k]);
                let j = choose|j: int| 0 <= j < s.drop_last().len() && s.drop_last()[j] == rest[k];
                assert(s[j] == rest[k]);
            } else {
                assert(active_pools(s)[k] == s.last());
                assert(s[s.len() - 1] == s.last());
            }
        }
    }
}

/// Once a pool is deactivated, it is no longer among the active pools (pool
/// identifiers being unique).
pub proof fn lemma_deactivated_pool_not_active(pools: Seq<ExternalPoolInterface>, pool_id: u64)
    requires
        pool_ids_unique(pools),
        pool_index(pools, pool_id) != -1,
    ensures
        ({
            let k = pool_index(pools, pool_id);
            let after = pools.update(k, ExternalPoolInterface { is_active: false, ..pools[k] });
            forall|m: int| 0 <= m < active_pools(after).len() ==> (#[trigger] active_pools(after)[m]).pool_id != pool_id
        }),
{
    lemma_pool_index_from(pools, pool_id, 0);
    let k = pool_index(pools, pool_id);
    let after = pools.update(k, ExternalPoolInterface { is_active: false, ..pools[k] });
    lemma_active_pools_from(after);
    assert forall|m: int| 0 <= m < active_pools(after).len() implies (#[trigger] active_pools(
        after,
    )[m]).pool_id != pool_id by {
        let p = active_pools(after)[m];
        let j = choose|j: int| 0 <= j < after.len() && after[j] == p;
        if j == k {
            assert(!after[j].is_active);
        } else {
            assert(after[j] == pools[j]);
            assert(pools[j].pool_id != pools[k].pool_id);
        }
    }
}

proof fn lemma_pool_index_push(s: Seq<ExternalPoolInterface>, p: ExternalPoolInterface, pool_id: u64, i: int)
    requires
        0 <= i <= s.len(),
        pool_index_from(s, pool_id, i) == -1,
        p.pool_id == pool_id,
    ensures
        pool_index_from(s.push(p), pool_id, i) == s.len(),
    decreases s.len() - i,
{
    if i < s.len() {
        assert(s.push(p)[i] == s[i]);
        lemma_pool_index_push(s, p, pool_id, i + 1);
    }
}

/// A pool that has just been registered under an identifier not yet in use
/// is found by that identifier, as it was registered.
pub proof fn lemma_registered_pool_found(
    pools: Seq<ExternalPoolInterface>,
    next_pool_id: Option<u64>,
    protocol_name: String,
    pool_contract: AccountId,
    strategy_type: String,
    now: u64,
)
    requires
        pool_index(pools, next_id(next_pool_id)) == -1,
    ensures
        ({
            let p = registered_pool(
                next_id(next_pool_id),
                protocol_name,
                pool_contract,
                strategy_type,
                now,
            );
            &&& pool_index(pools.push(p), next_id(next_pool_id)) == pools.len()
            &&& pools.push(p)[pool_index(pools.push(p), next_id(next_pool_id))] == p
            &&& p.is_active
        }),
{
    let p = registered_pool(next_id(next_pool_id), protocol_name, pool_contract, strategy_type, now);
    lemma_pool_index_push(pools, p, next_id(next_pool_id), 0);
}

// ---------------------------------------------------------------------------
// Properties of recorded yield
// ---------------------------------------------------------------------------

/// Exact (unsaturated) sum of the yield earned by an internal pool's deposits.
pub open spec fn yield_sum(s: Seq<ExternalPoolDeposit>, internal_pool_id: u64) -> int
    decreases s.len(),
{
    if s.len() == 0 {
        0
    } else {
        yield_sum(s.drop_last(), internal_pool_id) + yield_of(s.last(), internal_pool_id)
    }
}

/// Yield that a deposit adds to an internal pool's total.
pub open spec fn yield_of(d: ExternalPoolDeposit, internal_pool_id: u64) -> int {
    if d.internal_pool_id == internal_pool_id {
        d.yield_earned as int
    } else {
        0
    }
}

/// Every deposit's earned yield is non-negative.
pub open spec fn yields_nonnegative(s: Seq<ExternalPoolDeposit>) -> bool {
    forall|i: int| 0 <= i < s.len() ==> (#[trigger] s[i]).yield_earned >= 0
}

proof fn lemma_yield_sum_update(
    s: Seq<ExternalPoolDeposit>,
    k: int,
    d: ExternalPoolDeposit,
    internal_pool_id: u64,
)
    requires
        0 <= k < s.len(),
    ensures
        yield_sum(s.update(k, d), internal_pool_id) == yield_sum(s, internal_pool_id) - yield_of(
            s[k],
            internal_pool_id,
        ) + yield_of(d, internal_pool_id),
    decreases s.len(),
{
    let u = s.update(k, d);
    if k == s.len() - 1 {
        assert(u.drop_last() =~= s.drop_last());
    } else {
        assert(u.drop_last() =~= s.drop_last().update(k, d));
        lemma_yield_sum_update(s.drop_last(), k, d, internal_pool_id);
    }
}

proof fn lemma_pool_yield_update_other(
    s: Seq<ExternalPoolDeposit>,
    k: int,
    d: ExternalPoolDeposit,
    internal_pool_id: u64,
)
    requires
        0 <= k < s.len(),
        s[k].internal_pool_id != internal_pool_id,
        d.internal_pool_id != internal_pool_id,
    ensures
        pool_yield(s.update(k, d), internal_pool_id) == pool_yield(s, internal_pool_id),
    decreases s.len(),
{
    let u = s.update(k, d);
    if k == s.len() - 1 {
        assert(u.drop_last() =~= s.drop_last());
    } else {
        assert(u.drop_last() =~= s.drop_last().update(k, d));
        lemma_pool_yield_update_other(s.drop_last(), k, d, internal_pool_id);
    }
}

proof fn lemma_pool_yield_exact(s: Seq<ExternalPoolDeposit>, internal_pool_id: u64)
    requires
        yields_nonnegative(s),
        yield_sum(s, internal_pool_id) <= i128::MAX,
    ensures
        yield_sum(s, internal_pool_id) >= 0,
        pool_yield(s, internal_pool_id) as int == yield_sum(s, internal_pool_id),
    decreases s.len(),
{
    if s.len() > 0 {
        let t = s.drop_last();
        assert forall|i: int| 0 <= i < t.len() implies (#[trigger] t[i]).yield_earned >= 0 by {
            assert(t[i] == s[i]);
        }
        assert(s[s.len() - 1].yield_earned >= 0);
        lemma_yield_sum_nonnegative(t, internal_pool_id);
        lemma_pool_yield_exact(t, internal_pool_id);
    }
}

proof fn lemma_yield_sum_nonnegative(s: Seq<ExternalPoolDeposit>, internal_pool_id: u64)
    requires
        yields_nonnegative(s),
    ensures
        yield_sum(s, internal_pool_id) >= 0,
    decreases s.len(),
{
    if s.len() > 0 {
        let t = s.drop_last();
        assert forall|i: int| 0 <= i < t.len() implies (#[trigger] t[i]).yield_earned >= 0 by {
            assert(t[i] == s[i]);
        }
        assert(s[s.len() - 1].yield_earned >= 0);
        lemma_yield_sum_nonnegative(t, internal_pool_id);
    }
}

/// Recording a yield on a deposit of an internal pool raises the yield that
/// the pool can claim by exactly that amount, when every recorded yield is
/// non-negative and the pool's total stays within `i128`.
pub proof fn lemma_recorded_yield_adds_to_pool(
    deposits: Seq<ExternalPoolDeposit>,
    deposit_id: u64,
    amount: i128,
    internal_pool_id: u64,
)
    requires
        amount > 0,
        yields_nonnegative(deposits),
        deposit_index(deposits, deposit_id) >= 0,
        deposits[deposit_index(deposits, deposit_id)].internal_pool_id == internal_pool_id,
        yield_sum(deposits, internal_pool_id) + amount <= i128::MAX,
    ensures
        pool_yield(credit_yield(deposits, deposit_id, amount), internal_pool_id) == pool_yield(
            deposits,
            internal_pool_id,
        ) + amount,
{
    lemma_deposit_index_from(deposits, deposit_id, 0);
    let k = deposit_index(deposits, deposit_id);
    let old_d = deposits[k];
    // the credited deposit's own yield is no more than the pool's total
    let zeroed = ExternalPoolDeposit { yield_earned: 0, ..old_d };
    lemma_yield_sum_update(deposits, k, zeroed, internal_pool_id);
    assert(yields_nonnegative(deposits.update(k, zeroed))) by {
        assert forall|i: int| 0 <= i < deposits.len() implies (#[trigger] deposits.update(
            k,
            zeroed,
        )[i]).yield_earned >= 0 by {
            if i != k {
                assert(deposits.update(k, zeroed)[i] == deposits[i]);
            }
        }
    }
    lemma_yield_sum_nonnegative(deposits.update(k, zeroed), internal_pool_id);
    assert(old_d.yield_earned + amount <= i128::MAX);
    let new_d = ExternalPoolDeposit {
        yield_earned: sat_add(old_d.yield_earned as int, amount as int),
        ..old_d
    };
    assert(new_d.yield_earned == old_d.yield_earned + amount);
    let after = credit_yield(deposits, deposit_id, amount);
    assert(after == deposits.update(k, new_d));
    lemma_yield_sum_update(deposits, k, new_d, internal_pool_id);
    assert(yields_nonnegative(after)) by {
        assert forall|i: int| 0 <= i < after.len() implies (#[trigger] after[i]).yield_earned
            >= 0 by {
            if i != k {
                assert(after[i] == deposits[i]);
            }
        }
    }
    lemma_pool_yield_exact(deposits, internal_pool_id);
    lemma_pool_yield_exact(after, internal_pool_id);
}

/// Recording a yield leaves the claimable yield of every other internal pool
/// unchanged, as it does every pool's when no deposit has that identifier.
pub proof fn lemma_recorded_yield_leaves_other_pools(
    deposits: Seq<ExternalPoolDeposit>,
    deposit_id: u64,
    amount: i128,
    internal_pool_id: u64,
)
    requires
        deposit_index(deposits, deposit_id) < 0 || deposits[deposit_index(
            deposits,
            deposit_id,
        )].internal_pool_id != internal_pool_id,
    ensures
        pool_yield(credit_yield(deposits, deposit_id, amount), internal_pool_id) == pool_yield(
            deposits,
            internal_pool_id,
        ),
{
    lemma_deposit_index_from(deposits, deposit_id, 0);
    let k = deposit_index(deposits, deposit_id);
    if k >= 0 {
        let old_d = deposits[k];
        let new_d = ExternalPoolDeposit {
            yield_earned: sat_add(old_d.yield_earned as int, amount as int),
            ..old_d
        };
        lemma_pool_yield_update_other(deposits, k, new_d, internal_pool_id);
    }
}

// ---------------------------------------------------------------------------
// Properties of the weighted APY
// ---------------------------------------------------------------------------

/// Every earning's APY is at most `max_apy`.
pub open spec fn apys_at_most(earnings: Seq<YieldEarning>, max_apy: u32) -> bool {
    forall|j: int| 0 <= j < earnings.len() ==> (#[trigger] earnings[j]).apy_bps <= max_apy
}

proof fn lemma_apy_step_bounded(acc: (u128, u128), apy: u32, w: u64, max_apy: u32)
    requires
        acc.0 <= max_apy * acc.1,
        apy <= max_apy,
    ensures
        sat_add_u128(acc.0, apy * w) <= max_apy * sat_add_u128(acc.1, w as int),
{
    assert(apy * w <= max_apy * w) by (nonlinear_arith)
        requires apy <= max_apy, w >= 0;
    assert(max_apy * acc.1 + max_apy * w == max_apy * (acc.1 + w)) by (nonlinear_arith);
    if acc.1 + w > u128::MAX {
        if max_apy == 0 {
            assert(apy * w == 0) by (nonlinear_arith)
                requires apy == 0;
            assert(max_apy * acc.1 == 0) by (nonlinear_arith)
                requires max_apy == 0;
        } else {
            assert(u128::MAX <= max_apy * u128::MAX) by (nonlinear_arith)
                requires max_apy >= 1;
        }
    }
}

proof fn lemma_deposit_apy_sums_bounded(
    earnings: Seq<YieldEarning>,
    d: ExternalPoolDeposit,
    total: i128,
    acc: (u128, u128),
    max_apy: u32,
)
    requires
        apys_at_most(earnings, max_apy),
        acc.0 <= max_apy * acc.1,
    ensures
        deposit_apy_sums(earnings, d, total, acc).0 <= max_apy * deposit_apy_sums(
            earnings,
            d,
            total,
            acc,
        ).1,
    decreases earnings.len(),
{
    if earnings.len() > 0 {
        let w = deposit_weight(d, total);
        assert(earnings[0].apy_bps <= max_apy);
        if earnings[0].deposit_id == d.deposit_id {
            lemma_apy_step_bounded(acc, earnings[0].apy_bps, w, max_apy);
        }
        let next = if earnings[0].deposit_id == d.deposit_id {
            (sat_add_u128(acc.0, earnings[0].apy_bps * w), sat_add_u128(acc.1, w as int))
        } else {
            acc
        };
        assert(apys_at_most(earnings.drop_first(), max_apy)) by {
            assert forall|j: int| 0 <= j < earnings.drop_first().len() implies (
            #[trigger] earnings.drop_first()[j]).apy_bps <= max_apy by {
                assert(earnings.drop_first()[j] == earnings[j + 1]);
            }
        }
        lemma_deposit_apy_sums_bounded(earnings.drop_first(), d, total, next, max_apy);
    }
}

proof fn lemma_apy_sums_bounded(
    deposits: Seq<ExternalPoolDeposit>,
    earnings: Seq<YieldEarning>,
    total: i128,
    acc: (u128, u128),
    max_apy: u32,
)
    requires
        apys_at_most(earnings, max_apy),
        acc.0 <= max_apy * acc.1,
    ensures
        apy_sums(deposits, earnings, total, acc).0 <= max_apy * apy_sums(
            deposits,
            earnings,
            total,
            acc,
        ).1,
    decreases deposits.len(),
{
    if deposits.len() > 0 {
        lemma_deposit_apy_sums_bounded(earnings, deposits[0], total, acc, max_apy);
        lemma_apy_sums_bounded(
            deposits.drop_first(),
            earnings,
            total,
            deposit_apy_sums(earnings, deposits[0], total, acc),
            max_apy,
        );
    }
}

/// The weighted average APY is never above the largest APY of the earnings
/// it weighs.
pub proof fn lemma_weighted_apy_at_most_largest(
    deposits: Seq<ExternalPoolDeposit>,
    earnings: Seq<YieldEarning>,
    total: i128,
    max_apy: u32,
)
    requires
        apys_at_most(earnings, max_apy),
    ensures
        weighted_average(apy_sums(deposits, earnings, total, (0, 0))) <= max_apy,
{
    assert(0 <= max_apy * 0) by (nonlinear_arith);
    lemma_apy_sums_bounded(deposits, earnings, total, (0, 0), max_apy);
    let sums = apy_sums(deposits, earnings, total, (0, 0));
    if sums.1 != 0 {
        let n = sums.0 as int;
        let dd = sums.1 as int;
        assert(n / dd <= max_apy) by (nonlinear_arith)
            requires n <= max_apy * dd, dd > 0, n >= 0;
    }
}

// ---------------------------------------------------------------------------
// Properties of deactivation
// ---------------------------------------------------------------------------

/// The pools after deactivating the first pool with this identifier (unchanged
/// when there is none), as `deactivate_pool` leaves them.
pub open spec fn deactivated(s: Seq<ExternalPoolInterface>, pool_id: u64) -> Seq<ExternalPoolInterface> {
    let k = pool_index(s, pool_id);
    if k == -1 {
        s
    } else {
        s.update(k, ExternalPoolInterface { is_active: false, ..s[k] })
    }
}

proof fn lemma_pool_index_from_update(
    s: Seq<ExternalPoolInterface>,
    k: int,
    p: ExternalPoolInterface,
    pool_id: u64,
    i: int,
)
    requires
        0 <= k < s.len(),
        0 <= i <= s.len(),
        p.pool_id == s[k].pool_id,
    ensures
        pool_index_from(s.update(k, p), pool_id, i) == pool_index_from(s, pool_id, i),
    decreases s.len() - i,
{
    if i < s.len() {
        assert(s.update(k, p)[i].pool_id == s[i].pool_id);
        lemma_pool_index_from_update(s, k, p, pool_id, i + 1);
    }
}

proof fn lemma_active_count_update(s: Seq<ExternalPoolInterface>, k: int, p: ExternalPoolInterface)
    requires
        0 <= k < s.len(),
    ensures
        active_pools(s.update(k, p)).len() == active_pools(s).len() - (if s[k].is_active {
            1int
        } else {
            0
        }) + (if p.is_active {
            1int
        } else {
            0
        }),
    decreases s.len(),
{
    let u = s.update(k, p);
    if k == s.len() - 1 {
        assert(u.drop_last() =~= s.drop_last());
    } else {
        assert(u.drop_last() =~= s.drop_last().update(k, p));
        lemma_active_count_update(s.drop_last(), k, p);
    }
}

/// Deactivating a pool is idempotent: a second deactivation changes nothing.
/// The first pool with the identifier is inactive afterwards, and the active
/// list is one pool shorter when it was active (identifiers need not be unique).
pub proof fn lemma_deactivation_idempotent(pools: Seq<ExternalPoolInterface>, pool_id: u64)
    requires
        pool_index(pools, pool_id) != -1,
    ensures
        deactivated(deactivated(pools, pool_id), pool_id) == deactivated(pools, pool_id),
        pool_index(deactivated(pools, pool_id), pool_id) == pool_index(pools, pool_id),
        !deactivated(pools, pool_id)[pool_index(pools, pool_id)].is_active,
        active_pools(deactivated(pools, pool_id)).len() == active_pools(pools).len() - (if pools[pool_index(
            pools,
            pool_id,
        )].is_active {
            1int
        } else {
            0
        }),
{
    lemma_pool_index_from(pools, pool_id, 0);
    let k = pool_index(pools, pool_id);
    let p = ExternalPoolInterface { is_active: false, ..pools[k] };
    let after = pools.update(k, p);
    lemma_pool_index_from_update(pools, k, p, pool_id, 0);
    lemma_active_count_update(pools, k, p);
    let again = after.update(k, ExternalPoolInterface { is_active: false, ..after[k] });
    assert(again =~= after);
}

} // verus!
