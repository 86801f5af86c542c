use quorum_credit::common::{AccountId, ContractError};
use quorum_credit::maturity::{
    apply_maturity_interest_adjustment, get_total_interest_bonus, get_vouch_maturity,
    initialize_vouch_maturity, update_maturity_bonus, VouchMaturityRecord,
};

const PERIOD: u64 = 15_768_000;
const TWO_YEARS: u64 = 63_072_000;

fn record(created: u64) -> VouchMaturityRecord {
    initialize_vouch_maturity(created, AccountId { id: 1 }, AccountId { id: 2 }, AccountId { id: 3 })
        .unwrap()
}

#[test]
fn test_initialize_vouch_maturity() {
    let r = record(1_000);
    assert_eq!(r.voucher, AccountId { id: 1 });
    assert_eq!(r.borrower, AccountId { id: 2 });
    assert_eq!(r.token, AccountId { id: 3 });
    assert_eq!(r.vouch_created_at, 1_000);
    assert_eq!(r.last_maturity_update, 1_000);
    assert_eq!(r.maturity_bonus_bps, 0);
    assert!(!r.loyalty_bonus_eligible);
}

#[test]
fn test_update_maturity_bonus() {
    let r = record(0);
    let (bonus, updated) = update_maturity_bonus(3 * PERIOD + 5, Some(r)).unwrap();
    assert_eq!(bonus, 30);
    assert_eq!(updated.maturity_bonus_bps, 30);
    assert_eq!(updated.last_maturity_update, 3 * PERIOD + 5);
    assert!(!updated.loyalty_bonus_eligible);

    let (capped, _) = update_maturity_bonus(20 * PERIOD, Some(r)).unwrap();
    assert_eq!(capped, 100);

    let (bonus, loyal) = update_maturity_bonus(TWO_YEARS, Some(r)).unwrap();
    assert_eq!(bonus, 40);
    assert!(loyal.loyalty_bonus_eligible);

    assert_eq!(
        update_maturity_bonus(10, Some(record(20))).unwrap_err(),
        ContractError::ArithmeticError
    );
    assert_eq!(update_maturity_bonus(10, None).unwrap_err(), ContractError::InvalidInput);
}

#[test]
fn test_get_total_interest_bonus() {
    let r = record(0);
    assert_eq!(get_total_interest_bonus(PERIOD - 1, Some(r)).unwrap().0, 0);
    assert_eq!(get_total_interest_bonus(TWO_YEARS, Some(r)).unwrap().0, 90);
    assert_eq!(get_total_interest_bonus(10 * TWO_YEARS, Some(r)).unwrap().0, 150);
    assert_eq!(get_total_interest_bonus(5, None).unwrap_err(), ContractError::InvalidInput);
}

#[test]
fn adjustment_applies_the_total_bonus() {
    let r = record(0);
    let (adjusted, updated) = apply_maturity_interest_adjustment(TWO_YEARS, Some(r), 10_000).unwrap();
    assert_eq!(adjusted, 10_090);
    assert_eq!(updated.maturity_bonus_bps, 40);
    assert_eq!(apply_maturity_interest_adjustment(0, Some(r), 10_000).unwrap().0, 10_000);
    assert_eq!(
        apply_maturity_interest_adjustment(TWO_YEARS, Some(r), i128::MAX).unwrap_err(),
        ContractError::ArithmeticError
    );
    assert_eq!(
        apply_maturity_interest_adjustment(TWO_YEARS, Some(r), -10_000).unwrap().0,
        -10_090
    );
}

#[test]
fn loyalty_is_kept_once_earned() {
    let mut r = record(0);
    r.loyalty_bonus_eligible = true;
    let (_, updated) = update_maturity_bonus(5, Some(r)).unwrap();
    assert!(updated.loyalty_bonus_eligible);
    assert_eq!(get_vouch_maturity(Some(updated)).unwrap().last_maturity_update, 5);
    assert_eq!(get_vouch_maturity(None).unwrap_err(), ContractError::InvalidInput);
}
