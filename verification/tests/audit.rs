use quorum_credit::audit::{
    export_vouch_audit_report, get_vouch_audit_trail, get_vouch_audit_trail_page,
    log_vouch_audit_event, VouchAuditEventType, VouchAuditTrail,
};
use quorum_credit::common::{AccountId, ContractError};

const VOUCHER: AccountId = AccountId { id: 1 };
const BORROWER: AccountId = AccountId { id: 2 };
const TOKEN: AccountId = AccountId { id: 3 };

fn trail_with(n: u64) -> (u64, VouchAuditTrail) {
    let mut counter = None;
    let mut trail = None;
    for i in 0..n {
        let (id, t) = log_vouch_audit_event(
            100 + i,
            counter,
            trail,
            VOUCHER,
            BORROWER,
            TOKEN,
            VouchAuditEventType::Modified,
            i as i128,
            None,
            None,
        )
        .unwrap();
        counter = Some(id);
        trail = Some(t);
    }
    (counter.unwrap_or(0), trail.unwrap())
}

#[test]
fn test_log_vouch_audit_event() {
    let (id, trail) = log_vouch_audit_event(
        100,
        None,
        None,
        VOUCHER,
        BORROWER,
        TOKEN,
        VouchAuditEventType::Created,
        500,
        Some(VOUCHER),
        Some("initial vouch".to_string()),
    )
    .unwrap();
    assert_eq!(id, 1);
    assert_eq!(trail.events.len(), 1);
    assert_eq!(trail.created_at, 100);
    assert_eq!(trail.last_event_at, 100);
    assert_eq!(trail.events[0].event_id, 1);
    assert_eq!(trail.events[0].reason.as_deref(), Some("initial vouch"));

    let (id2, trail2) = log_vouch_audit_event(
        200,
        Some(id),
        Some(trail),
        VOUCHER,
        BORROWER,
        TOKEN,
        VouchAuditEventType::Slashed,
        100,
        None,
        None,
    )
    .unwrap();
    assert_eq!(id2, 2);
    assert_eq!(trail2.events.len(), 2);
    assert_eq!(trail2.created_at, 100);
    assert_eq!(trail2.last_event_at, 200);
    assert_eq!(trail2.events[0].operation, VouchAuditEventType::Created);
    assert_eq!(trail2.events[1].operation, VouchAuditEventType::Slashed);
    assert!(trail2.events[0].event_id < trail2.events[1].event_id);

    assert_eq!(
        log_vouch_audit_event(
            1,
            Some(u64::MAX),
            None,
            VOUCHER,
            BORROWER,
            TOKEN,
            VouchAuditEventType::Created,
            1,
            None,
            None
        )
        .unwrap_err(),
        ContractError::ArithmeticError
    );
}

#[test]
fn test_get_vouch_audit_trail() {
    assert_eq!(get_vouch_audit_trail(None).unwrap_err(), ContractError::InvalidInput);
    let (_, trail) = trail_with(3);
    let got = get_vouch_audit_trail(Some(trail)).unwrap();
    assert_eq!(got.events.len(), 3);
    let ids: Vec<u64> = got.events.iter().map(|e| e.event_id).collect();
    assert_eq!(ids, vec![1, 2, 3]);
}

#[test]
fn pages_of_the_trail() {
    let (_, trail) = trail_with(5);
    let page = get_vouch_audit_trail_page(Some(trail), 1, 2).unwrap();
    let ids: Vec<u64> = page.iter().map(|e| e.event_id).collect();
    assert_eq!(ids, vec![2, 3]);

    let (_, trail) = trail_with(5);
    assert!(get_vouch_audit_trail_page(Some(trail), 5, 2).unwrap().is_empty());
    let (_, trail) = trail_with(5);
    assert_eq!(get_vouch_audit_trail_page(Some(trail), 3, 1000).unwrap().len(), 2);
    let (_, trail) = trail_with(150);
    assert_eq!(get_vouch_audit_trail_page(Some(trail), 0, 1000).unwrap().len(), 100);
    assert_eq!(
        get_vouch_audit_trail_page(None, 0, 1).unwrap_err(),
        ContractError::InvalidInput
    );
}

#[test]
fn report_export() {
    let (_, trail) = trail_with(2);
    assert_eq!(
        export_vouch_audit_report(Some(trail)).unwrap(),
        "Vouch Audit Report\n==================\nTotal Events: 2\n\
         Event 1: Modified, amount 0, at 100\n\
         Event 2: Modified, amount 1, at 101\n"
    );
    let (_, mut trail) = trail_with(1);
    trail.events[0].amount = -1_250;
    trail.events[0].operation = VouchAuditEventType::Withdrawn;
    trail.events[0].event_id = 12;
    assert_eq!(
        export_vouch_audit_report(Some(trail)).unwrap(),
        "Vouch Audit Report\n==================\nTotal Events: 1\n\
         Event 12: Withdrawn, amount -1250, at 100\n"
    );
    let empty = VouchAuditTrail {
        voucher: VOUCHER,
        borrower: BORROWER,
        token: TOKEN,
        events: Vec::new(),
        created_at: 0,
        last_event_at: 0,
    };
    assert_eq!(
        export_vouch_audit_report(Some(empty)).unwrap(),
        "Vouch Audit Report\n==================\nTotal Events: 0\n"
    );
    assert_eq!(export_vouch_audit_report(None).unwrap_err(), ContractError::InvalidInput);
}

#[test]
fn interleaved_logging_keeps_each_trail_in_order() {
    let other = AccountId { id: 9 };
    let mut counter = None;
    let mut mine = None;
    let mut theirs = None;
    for i in 0..6u64 {
        let for_mine = i % 2 == 0;
        let (id, t) = log_vouch_audit_event(
            1_000 + 10 * i,
            counter,
            if for_mine { mine.take() } else { theirs.take() },
            VOUCHER,
            if for_mine { BORROWER } else { other },
            TOKEN,
            VouchAuditEventType::Modified,
            1,
            None,
            None,
        )
        .unwrap();
        counter = Some(id);
        if for_mine {
            mine = Some(t);
        } else {
            theirs = Some(t);
        }
    }
    let trail = get_vouch_audit_trail(mine).unwrap();
    assert_eq!(trail.events.len(), 3);
    let ids: Vec<u64> = trail.events.iter().map(|e| e.event_id).collect();
    assert_eq!(ids, vec![1, 3, 5]);
    let times: Vec<u64> = trail.events.iter().map(|e| e.timestamp).collect();
    assert_eq!(times, vec![1_000, 1_020, 1_040]);
    assert_eq!(trail.last_event_at, 1_040);
}
