use quorum_credit::common::{AccountId, ContractError};
use quorum_credit::loan_acceleration::{
    accelerate_loans_for_borrower, add_trusted_platform, get_cross_default_analytics,
    get_cross_default_config, is_loan_accelerated, record_cross_default_event,
    register_external_default, remove_trusted_platform, store_cross_default_record,
    update_cross_default_config, CrossDefaultAnalytics, CrossDefaultConfig, CrossDefaultStatus,
    LoanRecord, LoanStatus,
};

const BORROWER: AccountId = AccountId { id: 11 };
const ADMIN: AccountId = AccountId { id: 1 };
const DAY: u64 = 86_400;

/// The configuration as the contract builds it: the default one, with a
/// minimum default of 100, the given percentage and two trusted platforms.
fn config(percentage: u32) -> CrossDefaultConfig {
    let c = get_cross_default_config(None, 100).unwrap();
    let c = update_cross_default_config(c, ADMIN, true, true, DAY, 100, percentage).unwrap();
    let c = add_trusted_platform(c, "stellar_lend".to_string()).unwrap();
    add_trusted_platform(c, "defi_protocol_x".to_string()).unwrap()
}

fn loan(principal: i128, repaid: i128, created: u64) -> LoanRecord {
    LoanRecord {
        loan_id: 7,
        borrower: BORROWER,
        principal,
        amount_repaid: repaid,
        created_timestamp: created,
        status: LoanStatus::Active,
    }
}

#[test]
fn test_external_default_registration() {
    let out = register_external_default(
        1_000,
        &config(100),
        None,
        None,
        None,
        None,
        BORROWER,
        "stellar_lend".to_string(),
        "ext-1".to_string(),
        500,
        900,
        vec![1, 2, 3],
    )
    .unwrap();
    assert_eq!(out.event_id, 0);
    assert_eq!(out.counter, 1);
    assert!(out.acceleration.is_none());

    let next = register_external_default(
        1_000,
        &config(100),
        Some(out.counter),
        Some(out.analytics),
        None,
        None,
        BORROWER,
        "defi_protocol_x".to_string(),
        "ext-2".to_string(),
        500,
        900,
        vec![],
    )
    .unwrap();
    assert_eq!(next.event_id, 1);
    assert_eq!(next.counter, 2);
    assert_eq!(next.analytics.total_events, 2);
}

#[test]
fn test_cross_default_triggering() {
    // a platform whitelisted through the contract triggers acceleration
    let c = get_cross_default_config(None, 100).unwrap();
    let c = add_trusted_platform(c, "stellar_lend".to_string()).unwrap();
    let out = register_external_default(
        2 * DAY,
        &c,
        Some(4),
        None,
        Some(7),
        Some(loan(1_000, 0, 0)),
        BORROWER,
        "stellar_lend".to_string(),
        "ext-1".to_string(),
        500,
        DAY,
        vec![],
    )
    .unwrap();
    assert_eq!(out.event_id, 4);
    // event identifiers stay consecutive
    assert_eq!(out.counter, 5);
    let (accelerated, record) = out.acceleration.unwrap();
    assert_eq!(accelerated.status, LoanStatus::Defaulted);
    assert_eq!(record.loan_id, 7);
    assert_eq!(record.borrower, BORROWER);
    assert_eq!(record.source_platform, "stellar_lend");
    assert_eq!(record.external_loan_id, "ext-1");
    assert_eq!(record.acceleration_timestamp, 2 * DAY);
    assert_eq!(record.status, CrossDefaultStatus::Accelerated);
    // the record is kept under the loan's own key
    assert_eq!(store_cross_default_record(&record).unwrap(), 7);
    assert!(is_loan_accelerated(Some(accelerated)).unwrap());
}

#[test]
fn test_balance_acceleration() {
    let full = accelerate_loans_for_borrower(
        2 * DAY,
        &config(100),
        Some(7),
        Some(loan(1_000, 0, 0)),
        BORROWER,
        "stellar_lend".to_string(),
        "ext-1".to_string(),
        500,
    )
    .unwrap()
    .unwrap();
    assert_eq!(full.1.balance_due, 1_000);

    // only the remaining balance becomes due
    let remaining = accelerate_loans_for_borrower(
        2 * DAY,
        &config(100),
        Some(7),
        Some(loan(1_000, 300, 0)),
        BORROWER,
        "stellar_lend".to_string(),
        "ext-1".to_string(),
        500,
    )
    .unwrap()
    .unwrap();
    assert_eq!(remaining.1.balance_due, 700);

    let half = accelerate_loans_for_borrower(
        2 * DAY,
        &config(50),
        Some(7),
        Some(loan(1_001, 0, 0)),
        BORROWER,
        "stellar_lend".to_string(),
        "ext-1".to_string(),
        500,
    )
    .unwrap()
    .unwrap();
    assert_eq!(half.1.balance_due, 500);

    let repaid = accelerate_loans_for_borrower(
        2 * DAY,
        &config(100),
        Some(7),
        Some(loan(1_000, 1_000, 0)),
        BORROWER,
        "stellar_lend".to_string(),
        "ext-1".to_string(),
        500,
    )
    .unwrap()
    .unwrap();
    assert_eq!(repaid.1.balance_due, 0);
}

#[test]
fn test_cross_default_analytics() {
    assert_eq!(get_cross_default_analytics(None).unwrap().total_events, 0);

    // one default that accelerates, then one that finds no active loan
    let first = register_external_default(
        2 * DAY,
        &config(100),
        None,
        None,
        Some(7),
        Some(loan(1_000, 200, 0)),
        BORROWER,
        "stellar_lend".to_string(),
        "ext-1".to_string(),
        500,
        DAY,
        vec![],
    )
    .unwrap();
    let second = register_external_default(
        2 * DAY,
        &config(100),
        Some(first.counter),
        Some(first.analytics),
        None,
        None,
        BORROWER,
        "stellar_lend".to_string(),
        "ext-2".to_string(),
        500,
        DAY,
        vec![],
    )
    .unwrap();
    let a = get_cross_default_analytics(Some(second.analytics)).unwrap();
    assert_eq!(a.total_events, 2);
    assert_eq!(a.loans_accelerated, 1);
    assert_eq!(a.total_amount_accelerated, 800);
    assert_eq!(a.resolved_accelerations, 0);
}

#[test]
fn test_trusted_platform_validation() {
    let err = register_external_default(
        2 * DAY,
        &config(100),
        None,
        None,
        Some(7),
        Some(loan(1_000, 0, 0)),
        BORROWER,
        "unknown_platform".to_string(),
        "ext-1".to_string(),
        500,
        DAY,
        vec![],
    )
    .unwrap_err();
    assert_eq!(err, ContractError::InvalidParameters);

    // the default configuration trusts no platform yet
    let default_config = get_cross_default_config(None, 100).unwrap();
    let err = register_external_default(
        2 * DAY,
        &default_config,
        None,
        None,
        None,
        None,
        BORROWER,
        "stellar_lend".to_string(),
        "ext-1".to_string(),
        500,
        DAY,
        vec![],
    )
    .unwrap_err();
    assert_eq!(err, ContractError::InvalidParameters);

    // a removed platform is no longer trusted
    let removed = remove_trusted_platform(config(100), "stellar_lend".to_string()).unwrap();
    assert_eq!(removed.trusted_platforms, vec!["defi_protocol_x".to_string()]);
    let err = register_external_default(
        2 * DAY,
        &removed,
        None,
        None,
        None,
        None,
        BORROWER,
        "stellar_lend".to_string(),
        "ext-1".to_string(),
        500,
        DAY,
        vec![],
    )
    .unwrap_err();
    assert_eq!(err, ContractError::InvalidParameters);
}

#[test]
fn test_acceleration_delay() {
    let out = register_external_default(
        DAY - 1,
        &config(100),
        None,
        None,
        Some(7),
        Some(loan(1_000, 0, 0)),
        BORROWER,
        "stellar_lend".to_string(),
        "ext-1".to_string(),
        500,
        0,
        vec![],
    )
    .unwrap();
    assert!(out.acceleration.is_none());
    assert_eq!(out.counter, 1);

    let out = register_external_default(
        DAY,
        &config(100),
        None,
        None,
        Some(7),
        Some(loan(1_000, 0, 0)),
        BORROWER,
        "stellar_lend".to_string(),
        "ext-1".to_string(),
        500,
        0,
        vec![],
    )
    .unwrap();
    assert!(out.acceleration.is_some());
}

#[test]
fn test_minimum_default_amount() {
    for amount in [99i128, 0, -5] {
        let err = register_external_default(
            2 * DAY,
            &config(100),
            None,
            None,
            None,
            None,
            BORROWER,
            "stellar_lend".to_string(),
            "ext-1".to_string(),
            amount,
            DAY,
            vec![],
        )
        .unwrap_err();
        assert_eq!(err, ContractError::InvalidParameters);
    }
    assert!(register_external_default(
        2 * DAY,
        &config(100),
        None,
        None,
        None,
        None,
        BORROWER,
        "stellar_lend".to_string(),
        "ext-1".to_string(),
        100,
        DAY,
        vec![],
    )
    .is_ok());
}

#[test]
fn disabled_clauses_refuse_defaults() {
    let c = update_cross_default_config(config(100), ADMIN, false, true, DAY, 100, 100).unwrap();
    let err = register_external_default(
        2 * DAY,
        &c,
        None,
        None,
        None,
        None,
        BORROWER,
        "stellar_lend".to_string(),
        "ext-1".to_string(),
        500,
        DAY,
        vec![],
    )
    .unwrap_err();
    assert_eq!(err, ContractError::InvalidStateTransition);
}

#[test]
fn missing_loan_record_is_reported() {
    let err = register_external_default(
        2 * DAY,
        &config(100),
        None,
        None,
        Some(7),
        None,
        BORROWER,
        "stellar_lend".to_string(),
        "ext-1".to_string(),
        500,
        DAY,
        vec![],
    )
    .unwrap_err();
    assert_eq!(err, ContractError::LoanNotFound);
    assert_eq!(is_loan_accelerated(None).unwrap_err(), ContractError::LoanNotFound);
}

#[test]
fn inactive_loans_are_not_accelerated() {
    let mut repaid = loan(1_000, 1_000, 0);
    repaid.status = LoanStatus::Repaid;
    let out = accelerate_loans_for_borrower(
        2 * DAY,
        &config(100),
        Some(7),
        Some(repaid),
        BORROWER,
        "stellar_lend".to_string(),
        "ext-1".to_string(),
        500,
    )
    .unwrap();
    assert!(out.is_none());
    assert!(!is_loan_accelerated(Some(repaid)).unwrap());
}

#[test]
fn configuration_defaults_and_updates() {
    let c = get_cross_default_config(None, 250).unwrap();
    assert!(c.enabled);
    assert!(c.trusted_platforms.is_empty());
    assert!(c.require_oracle_verification);
    assert_eq!(c.acceleration_delay_secs, DAY);
    assert_eq!(c.min_default_amount, 250);
    assert_eq!(c.acceleration_percentage, 100);

    let c = add_trusted_platform(c, "stellar_lend".to_string()).unwrap();
    assert_eq!(
        update_cross_default_config(config(100), ADMIN, true, true, DAY, 100, 0).unwrap_err(),
        ContractError::InvalidParameters
    );
    assert_eq!(
        update_cross_default_config(config(100), ADMIN, true, true, DAY, 100, 101).unwrap_err(),
        ContractError::InvalidParameters
    );
    let updated = update_cross_default_config(c, ADMIN, false, false, 3_600, 1, 40).unwrap();
    // a stored configuration is read back as it was stored
    let read = get_cross_default_config(Some(updated), 250).unwrap();
    assert!(!read.enabled);
    assert!(!read.require_oracle_verification);
    assert_eq!(read.acceleration_delay_secs, 3_600);
    assert_eq!(read.min_default_amount, 1);
    assert_eq!(read.acceleration_percentage, 40);
    assert_eq!(read.trusted_platforms, vec!["stellar_lend".to_string()]);

    // adding a platform twice lists it once
    let twice = add_trusted_platform(read, "stellar_lend".to_string()).unwrap();
    assert_eq!(twice.trusted_platforms.len(), 1);

    assert_eq!(record_cross_default_event(Some(9)).unwrap(), (9, 10));
    assert_eq!(record_cross_default_event(None).unwrap(), (0, 1));

    let stored = CrossDefaultAnalytics {
        total_events: 3,
        loans_accelerated: 1,
        total_amount_accelerated: 50,
        resolved_accelerations: 0,
    };
    assert_eq!(get_cross_default_analytics(Some(stored)).unwrap().loans_accelerated, 1);
}
