use quorum_credit::bond_protection::{
    apply_bond_coverage, get_bond, get_bond_insurance, get_bond_stats,
    get_bond_utilization_rate, purchase_bond_insurance, release_bond,
    stake_bond_for_vouch_protection, BondStats, BondStatus, InsuranceStatus,
};
use quorum_credit::common::{AccountId, ContractError};

const VOUCHER: AccountId = AccountId { id: 7 };

fn staked() -> (quorum_credit::bond_protection::VouchProtectionBond, BondStats) {
    stake_bond_for_vouch_protection(false, 100, 1, 2, VOUCHER, 10_000, 5_000, None).unwrap()
}

#[test]
fn stake_creates_bond_and_stats() {
    let (bond, stats) = staked();
    assert_eq!(bond.voucher, VOUCHER);
    assert_eq!(bond.loan_id, 1);
    assert_eq!(bond.vouch_id, 2);
    assert_eq!(bond.bond_amount, 5_000);
    assert_eq!(bond.protected_stake, 10_000);
    assert_eq!(bond.created_at, 100);
    assert_eq!(bond.amount_used, 0);
    assert_eq!(bond.released_at, None);
    assert_eq!(bond.status, BondStatus::Active);
    assert!(!bond.has_insurance);
    assert_eq!(stats.total_bonded, 5_000);
    assert_eq!(stats.active_bonds, 1);
    assert_eq!(stats.last_activity, 100);

    let (_, stats2) =
        stake_bond_for_vouch_protection(false, 200, 2, 3, VOUCHER, 4_000, 1_000, Some(stats))
            .unwrap();
    assert_eq!(stats2.total_bonded, 6_000);
    assert_eq!(stats2.active_bonds, 2);
    assert_eq!(stats2.last_activity, 200);
}

#[test]
fn stake_is_limited_to_half_of_the_vouch() {
    assert_eq!(
        stake_bond_for_vouch_protection(false, 100, 1, 2, VOUCHER, 10_000, 5_001, None).unwrap_err(),
        ContractError::InvalidAmount
    );
    assert_eq!(
        stake_bond_for_vouch_protection(false, 100, 1, 2, VOUCHER, 10_000, 0, None).unwrap_err(),
        ContractError::InvalidAmount
    );
    assert_eq!(
        stake_bond_for_vouch_protection(true, 100, 1, 2, VOUCHER, 10_000, 100, None).unwrap_err(),
        ContractError::ContractPaused
    );
    let (_, mut stats) = staked();
    stats.total_bonded = i128::MAX;
    assert_eq!(
        stake_bond_for_vouch_protection(false, 100, 1, 2, VOUCHER, 10_000, 1, Some(stats))
            .unwrap_err(),
        ContractError::ArithmeticError
    );
}

#[test]
fn insurance_costs_three_percent_and_is_bought_once() {
    let (bond, stats) = staked();
    let (ins, insured, stats2) =
        purchase_bond_insurance(false, 150, 1, VOUCHER, 5_000, Some(bond), Some(stats)).unwrap();
    assert_eq!(ins.premium_paid, 150);
    assert_eq!(ins.max_coverage, 5_000);
    assert_eq!(ins.insured_bond_amount, 5_000);
    assert_eq!(ins.amount_claimed, 0);
    assert_eq!(ins.status, InsuranceStatus::Active);
    assert_eq!(ins.purchased_at, 150);
    assert!(insured.has_insurance);
    assert_eq!(stats2.total_insurance_premiums, 150);
    assert_eq!(stats2.last_activity, 150);

    assert_eq!(
        purchase_bond_insurance(false, 160, 1, VOUCHER, 5_000, Some(insured), Some(stats2))
            .unwrap_err(),
        ContractError::InvalidAmount
    );
    assert_eq!(
        purchase_bond_insurance(false, 160, 1, VOUCHER, 5_000, None, Some(stats2)).unwrap_err(),
        ContractError::InvalidAmount
    );
    assert_eq!(
        purchase_bond_insurance(false, 160, 1, VOUCHER, 5_000, Some(bond), None).unwrap_err(),
        ContractError::InvalidAmount
    );
    assert_eq!(
        purchase_bond_insurance(true, 160, 1, VOUCHER, 5_000, Some(bond), Some(stats)).unwrap_err(),
        ContractError::ContractPaused
    );
}

#[test]
fn coverage_uses_the_bond_first() {
    let (bond, stats) = staked();
    let c = apply_bond_coverage(300, 3_000, Some(bond), Some(stats), None).unwrap();
    assert_eq!(c.covered, 3_000);
    assert_eq!(c.bond.amount_used, 3_000);
    assert_eq!(c.bond.status, BondStatus::PartiallyUsed);
    assert_eq!(c.stats.total_used, 3_000);
    assert_eq!(c.stats.times_bond_used, 1);
    assert_eq!(c.stats.last_activity, 300);

    let c2 = apply_bond_coverage(400, 9_000, Some(c.bond), Some(c.stats), None).unwrap();
    assert_eq!(c2.covered, 2_000);
    assert_eq!(c2.bond.amount_used, 5_000);
    assert_eq!(c2.bond.status, BondStatus::Exhausted);

    assert_eq!(
        apply_bond_coverage(500, 1, Some(c2.bond), Some(c2.stats), None).unwrap_err(),
        ContractError::InvalidAmount
    );
    assert_eq!(
        apply_bond_coverage(500, 1, None, Some(stats), None).unwrap_err(),
        ContractError::InvalidAmount
    );
    assert_eq!(
        apply_bond_coverage(500, 1, Some(bond), None, None).unwrap_err(),
        ContractError::InvalidAmount
    );
}

#[test]
fn insurance_pays_the_shortfall() {
    let (bond, stats) = staked();
    let (ins, insured, stats2) =
        purchase_bond_insurance(false, 150, 1, VOUCHER, 5_000, Some(bond), Some(stats)).unwrap();
    let c = apply_bond_coverage(300, 7_000, Some(insured), Some(stats2), Some(ins)).unwrap();
    assert_eq!(c.covered, 7_000);
    assert_eq!(c.bond.amount_used, 5_000);
    assert_eq!(c.bond.status, BondStatus::Exhausted);
    let paid = c.insurance.unwrap();
    assert_eq!(paid.amount_claimed, 2_000);
    assert_eq!(paid.status, InsuranceStatus::Active);
    // the statistics record the bond's use and the insurance payout
    assert_eq!(c.stats.total_used, stats2.total_used + 5_000);
    assert_eq!(c.stats.times_bond_used, stats2.times_bond_used + 1);
    assert_eq!(c.stats.insurance_claims_paid, stats2.insurance_claims_paid + 1);
    assert_eq!(c.stats.total_insurance_payout, stats2.total_insurance_payout + 2_000);
    assert_eq!(c.stats.last_activity, 300);

    let c2 = apply_bond_coverage(300, 12_000, Some(insured), Some(stats2), Some(ins)).unwrap();
    assert_eq!(c2.covered, 10_000);
    assert_eq!(c2.insurance.unwrap().status, InsuranceStatus::Claimed);
}

#[test]
fn release_refunds_the_unused_part_once() {
    let (bond, stats) = staked();
    let c = apply_bond_coverage(300, 3_000, Some(bond), Some(stats), None).unwrap();
    let rel = release_bond(false, 400, Some(c.bond), None, Some(c.stats)).unwrap();
    assert_eq!(rel.refund, 2_000);
    assert_eq!(rel.bond.status, BondStatus::Released);
    assert_eq!(rel.bond.released_at, Some(400));
    assert_eq!(rel.stats.active_bonds, 0);
    assert_eq!(rel.stats.last_activity, 400);
    assert_eq!(
        release_bond(false, 500, Some(rel.bond), None, Some(rel.stats)).unwrap_err(),
        ContractError::InvalidAmount
    );
    assert_eq!(
        apply_bond_coverage(500, 10, Some(rel.bond), Some(rel.stats), None).unwrap_err(),
        ContractError::InvalidAmount
    );
    assert_eq!(
        release_bond(true, 500, Some(bond), None, Some(stats)).unwrap_err(),
        ContractError::ContractPaused
    );
}

#[test]
fn release_also_releases_active_insurance() {
    let (bond, stats) = staked();
    let (ins, insured, stats2) =
        purchase_bond_insurance(false, 150, 1, VOUCHER, 5_000, Some(bond), Some(stats)).unwrap();
    assert_eq!(
        release_bond(false, 400, Some(insured), None, Some(stats2)).unwrap_err(),
        ContractError::InvalidAmount
    );
    let rel = release_bond(false, 400, Some(insured), Some(ins), Some(stats2)).unwrap();
    assert_eq!(rel.insurance.unwrap().status, InsuranceStatus::Released);
    assert_eq!(rel.refund, 5_000);
}

#[test]
fn getters_return_what_is_stored() {
    let (bond, stats) = staked();
    assert_eq!(get_bond(Some(bond)).unwrap().bond_amount, 5_000);
    assert_eq!(get_bond(None).unwrap_err(), ContractError::InvalidAmount);
    assert_eq!(get_bond_stats(Some(stats)).unwrap().total_bonded, 5_000);
    assert_eq!(get_bond_stats(None).unwrap_err(), ContractError::InvalidAmount);
    assert_eq!(get_bond_insurance(None).unwrap_err(), ContractError::InvalidAmount);
}

#[test]
fn utilization_rate_in_basis_points() {
    let (_, mut stats) = staked();
    assert_eq!(get_bond_utilization_rate(Some(stats)).unwrap(), 0);
    stats.total_used = 3_000;
    assert_eq!(get_bond_utilization_rate(Some(stats)).unwrap(), 6_000);
    stats.total_used = 9_000;
    assert_eq!(get_bond_utilization_rate(Some(stats)).unwrap(), 10_000);
    stats.total_bonded = 0;
    assert_eq!(get_bond_utilization_rate(Some(stats)).unwrap(), 0);
    assert_eq!(get_bond_utilization_rate(None).unwrap_err(), ContractError::InvalidAmount);
}
