use quorum_credit::common::{AccountId, ContractError};
use quorum_credit::pool_composability::{
    calculate_weighted_avg_apy, claim_all_yields, create_portfolio_snapshot, deactivate_pool,
    deposit_to_external_pool, get_active_pools, get_aggregated_yield, get_external_pool,
    get_portfolio_allocation, get_total_external_tvl, record_yield_earning,
    register_external_pool, ExternalPoolDeposit, ExternalPoolInterface, PoolType,
    PortfolioSnapshot, YieldEarning,
};

fn deposits_of(amounts: &[(u64, i128)]) -> Vec<ExternalPoolDeposit> {
    let mut deposits = Vec::new();
    let mut next = None;
    for (pool, amount) in amounts {
        let (_, n) = deposit_to_external_pool(10, next, &mut deposits, *pool, 90 + *pool, *amount)
            .unwrap();
        next = Some(n);
    }
    deposits
}

#[test]
fn test_pool_allocation_calculation() {
    let amount = 500i128;
    let total = 1000i128;
    let allocation_percentage_bps = ((amount as u128 * 10_000) / (total as u128)) as u32;
    assert_eq!(allocation_percentage_bps, 5000);

    let deposits = deposits_of(&[(1, 500), (1, 500)]);
    let allocations = get_portfolio_allocation(&deposits, 1);
    assert_eq!(allocations.len(), 2);
    assert_eq!(allocations[0].allocation_percentage_bps, 5000);
    assert_eq!(allocations[1].allocation_percentage_bps, 5000);
    assert_eq!(allocations[0].amount, 500);
    assert_eq!(allocations[0].pool_id, 91);
    assert_eq!(allocations[0].pool_type, PoolType::External);
}

#[test]
fn allocation_of_a_pool_without_deposits_is_empty() {
    let deposits = deposits_of(&[(1, 500)]);
    assert!(get_portfolio_allocation(&deposits, 2).is_empty());
}

#[test]
fn allocation_shares_add_up_to_at_most_the_whole() {
    let deposits = deposits_of(&[(1, 1), (1, 1), (1, 1), (2, 7)]);
    let allocations = get_portfolio_allocation(&deposits, 1);
    let total: u32 = allocations.iter().map(|a| a.allocation_percentage_bps).sum();
    assert_eq!(total, 9999);
}

#[test]
fn pools_register_under_increasing_ids() {
    let mut pools: Vec<ExternalPoolInterface> = Vec::new();
    let contract = AccountId { id: 5 };
    assert_eq!(
        register_external_pool(1, None, &mut pools, String::new(), contract, "farming".to_string())
            .unwrap_err(),
        ContractError::InvalidInput
    );
    assert!(pools.is_empty());
    let (p1, next) =
        register_external_pool(1, None, &mut pools, "aqua".to_string(), contract, "farming".to_string())
            .unwrap();
    assert_eq!(p1.pool_id, 1);
    assert_eq!(next, 2);
    assert!(p1.is_active);
    assert_eq!(p1.registered_at, 1);
    let (p2, next) = register_external_pool(
        2,
        Some(next),
        &mut pools,
        "blend".to_string(),
        contract,
        "staking".to_string(),
    )
    .unwrap();
    assert_eq!(p2.pool_id, 2);
    assert_eq!(next, 3);
    assert_eq!(pools.len(), 2);
    assert_eq!(get_external_pool(&pools, 2).unwrap().protocol_name, "blend");
    assert_eq!(get_external_pool(&pools, 9).unwrap_err(), ContractError::NotFound);
}

#[test]
fn deactivated_pools_leave_the_active_list() {
    let mut pools: Vec<ExternalPoolInterface> = Vec::new();
    let contract = AccountId { id: 5 };
    let (_, next) =
        register_external_pool(1, None, &mut pools, "aqua".to_string(), contract, "farming".to_string())
            .unwrap();
    register_external_pool(1, Some(next), &mut pools, "blend".to_string(), contract, "staking".to_string())
        .unwrap();
    assert_eq!(get_active_pools(&pools).len(), 2);
    deactivate_pool(&mut pools, 1).unwrap();
    let active = get_active_pools(&pools);
    assert_eq!(active.len(), 1);
    assert_eq!(active[0].pool_id, 2);
    assert!(!get_external_pool(&pools, 1).unwrap().is_active);
    assert_eq!(deactivate_pool(&mut pools, 42).unwrap_err(), ContractError::NotFound);
    // a second deactivation succeeds and changes nothing
    deactivate_pool(&mut pools, 1).unwrap();
    assert_eq!(get_active_pools(&pools).len(), 1);
    assert!(!pools[0].is_active && pools[1].is_active);
}

#[test]
fn deposits_take_increasing_ids() {
    let mut deposits = Vec::new();
    assert_eq!(
        deposit_to_external_pool(5, None, &mut deposits, 1, 2, 0).unwrap_err(),
        ContractError::InvalidInput
    );
    let (d, next) = deposit_to_external_pool(5, None, &mut deposits, 1, 2, 300).unwrap();
    assert_eq!(d.deposit_id, 1);
    assert_eq!(d.deposit_time, 5);
    assert_eq!(d.yield_earned, 0);
    assert_eq!(next, 2);
    assert_eq!(deposits.len(), 1);
}

#[test]
fn yield_is_credited_to_its_deposit() {
    let mut deposits = deposits_of(&[(1, 500), (1, 700), (2, 100)]);
    let mut earnings: Vec<YieldEarning> = Vec::new();
    assert_eq!(
        record_yield_earning(20, &mut earnings, &mut deposits, 2, 0, 100).unwrap_err(),
        ContractError::InvalidInput
    );
    assert_eq!(
        record_yield_earning(20, &mut earnings, &mut deposits, 2, 10, 10_001).unwrap_err(),
        ContractError::InvalidInput
    );
    assert!(earnings.is_empty());
    let e = record_yield_earning(20, &mut earnings, &mut deposits, 2, 40, 800).unwrap();
    assert_eq!(e.amount, 40);
    assert_eq!(e.earned_at, 20);
    assert_eq!(deposits[1].yield_earned, 40);
    record_yield_earning(21, &mut earnings, &mut deposits, 3, 5, 800).unwrap();
    assert_eq!(earnings.len(), 2);
    assert_eq!(get_aggregated_yield(&deposits, 1), 40);
    assert_eq!(claim_all_yields(&deposits, 1).unwrap(), 40);
    assert_eq!(get_aggregated_yield(&deposits, 2), 5);
    // an unknown deposit credits nothing
    record_yield_earning(22, &mut earnings, &mut deposits, 99, 5, 800).unwrap();
    assert_eq!(get_aggregated_yield(&deposits, 1), 40);
    assert_eq!(get_total_external_tvl(&deposits), 1_300);
}

#[test]
fn snapshots_record_the_allocation() {
    let deposits = deposits_of(&[(1, 500), (2, 100)]);
    let mut snapshots: Vec<PortfolioSnapshot> = Vec::new();
    assert_eq!(
        create_portfolio_snapshot(3, &deposits, &mut snapshots, 1, 0).unwrap_err(),
        ContractError::InvalidInput
    );
    assert!(snapshots.is_empty());
    let snap = create_portfolio_snapshot(3, &deposits, &mut snapshots, 1, 2_000).unwrap();
    assert_eq!(snap.timestamp, 3);
    assert_eq!(snap.total_value, 2_000);
    assert_eq!(snap.allocations.len(), 1);
    assert_eq!(snap.allocations[0].allocation_percentage_bps, 2_500);
    assert_eq!(snapshots.len(), 1);
    assert_eq!(snapshots[0].allocations[0].allocation_percentage_bps, 2_500);
}

#[test]
fn weighted_apy_weighs_by_deposit_share() {
    let mut deposits = deposits_of(&[(1, 500), (1, 1_500), (2, 100)]);
    let mut earnings: Vec<YieldEarning> = Vec::new();
    record_yield_earning(1, &mut earnings, &mut deposits, 1, 10, 1_000).unwrap();
    record_yield_earning(1, &mut earnings, &mut deposits, 2, 10, 2_000).unwrap();
    record_yield_earning(1, &mut earnings, &mut deposits, 3, 10, 9_000).unwrap();
    assert_eq!(calculate_weighted_avg_apy(&earnings, &deposits, 1).unwrap(), 1_750);
    assert_eq!(calculate_weighted_avg_apy(&earnings, &deposits, 2).unwrap(), 9_000);
    assert_eq!(
        calculate_weighted_avg_apy(&earnings, &deposits, 3).unwrap_err(),
        ContractError::NotFound
    );
}

#[test]
fn weighted_apy_is_an_average_of_earnings() {
    let mut deposits = deposits_of(&[(1, 1_000), (2, 400)]);
    let mut earnings: Vec<YieldEarning> = Vec::new();
    record_yield_earning(1, &mut earnings, &mut deposits, 1, 10, 500).unwrap();
    record_yield_earning(2, &mut earnings, &mut deposits, 1, 10, 500).unwrap();
    assert_eq!(calculate_weighted_avg_apy(&earnings, &deposits, 1).unwrap(), 500);
    record_yield_earning(3, &mut earnings, &mut deposits, 1, 10, 800).unwrap();
    assert_eq!(calculate_weighted_avg_apy(&earnings, &deposits, 1).unwrap(), 600);
    // a pool whose deposits have earned nothing has no APY yet
    assert_eq!(calculate_weighted_avg_apy(&earnings, &deposits, 2).unwrap(), 0);
}
