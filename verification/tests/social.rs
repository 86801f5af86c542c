use quorum_credit::common::{AccountId, ContractError};
use quorum_credit::social::{
    calculate_engagement_score, find_similar_borrowers, get_borrower_profile,
    get_borrower_success_stories, get_retention_metrics, get_success_story,
    publish_success_story, set_borrower_profile, set_success_story_consent,
    submit_success_story, update_retention_metrics, RetentionMetrics, SuccessStory,
};

const BORROWER: AccountId = AccountId { id: 21 };
const YEAR: u64 = 31_536_000;

#[test]
fn test_set_borrower_profile() {
    let p = set_borrower_profile(10, None, BORROWER, "farmer".to_string(), Some("agri".to_string()), None)
        .unwrap();
    assert_eq!(p.created_at, 10);
    assert_eq!(p.updated_at, 10);
    assert!(!p.success_story_consent);
    assert_eq!(p.sector.as_deref(), Some("agri"));

    let consented = set_success_story_consent(20, Some(p), true).unwrap();
    assert!(consented.success_story_consent);
    assert_eq!(consented.updated_at, 20);

    let updated =
        set_borrower_profile(30, Some(consented), BORROWER, "baker".to_string(), None, Some("north".to_string()))
            .unwrap();
    assert_eq!(updated.created_at, 10);
    assert_eq!(updated.updated_at, 30);
    assert!(updated.success_story_consent);
    assert_eq!(updated.bio, "baker");
    assert_eq!(updated.sector, None);

    assert_eq!(
        set_borrower_profile(40, None, BORROWER, "x".repeat(501), None, None).unwrap_err(),
        ContractError::InvalidInput
    );
    assert!(set_borrower_profile(40, None, BORROWER, "x".repeat(500), None, None).is_ok());
    // the length is counted in bytes
    assert_eq!(
        set_borrower_profile(40, None, BORROWER, "é".repeat(251), None, None).unwrap_err(),
        ContractError::InvalidInput
    );
    assert_eq!(set_success_story_consent(5, None, true).unwrap_err(), ContractError::NotFound);
    assert_eq!(get_borrower_profile(None).unwrap_err(), ContractError::NotFound);
}

#[test]
fn test_submit_success_story() {
    let (story, ids, counter) =
        submit_success_story(50, None, None, BORROWER, "Paid off".to_string(), "It worked".to_string())
            .unwrap();
    assert_eq!(story.story_id, 1);
    assert!(!story.is_published);
    assert_eq!(story.submitted_at, 50);
    assert_eq!(ids, vec![1]);
    assert_eq!(counter, 1);

    let (second, ids, counter) = submit_success_story(
        60,
        Some(counter),
        Some(ids),
        BORROWER,
        "Again".to_string(),
        "Twice".to_string(),
    )
    .unwrap();
    assert_eq!(second.story_id, 2);
    assert_eq!(ids, vec![1, 2]);
    assert_eq!(counter, 2);

    assert_eq!(
        submit_success_story(60, None, None, BORROWER, "t".repeat(101), String::new()).unwrap_err(),
        ContractError::InvalidInput
    );
    assert_eq!(
        submit_success_story(60, None, None, BORROWER, String::new(), "c".repeat(2001)).unwrap_err(),
        ContractError::InvalidInput
    );
    assert_eq!(
        submit_success_story(60, Some(u64::MAX), None, BORROWER, String::new(), String::new())
            .unwrap_err(),
        ContractError::ArithmeticError
    );

    assert_eq!(
        publish_success_story(Some(second), AccountId { id: 99 }).unwrap_err(),
        ContractError::Unauthorized
    );
    let published = publish_success_story(Some(story), BORROWER).unwrap();
    assert!(published.is_published);
    assert_eq!(publish_success_story(None, BORROWER).unwrap_err(), ContractError::NotFound);
    assert_eq!(get_success_story(None).unwrap_err(), ContractError::NotFound);
}

#[test]
fn test_retention_metrics() {
    let m = update_retention_metrics(1_000, BORROWER, 4, 3, 1, 2, 100, 900).unwrap();
    assert_eq!(m.platform_tenure, 900);
    assert_eq!(m.average_loan_interval, 300);
    assert_eq!(m.total_loans, 4);

    let future = update_retention_metrics(1_000, BORROWER, 1, 1, 0, 1, 5_000, 5_000).unwrap();
    assert_eq!(future.platform_tenure, 0);
    assert_eq!(future.average_loan_interval, 0);
    assert_eq!(get_retention_metrics(Some(m)).unwrap().platform_tenure, 900);
    assert_eq!(get_retention_metrics(None).unwrap_err(), ContractError::NotFound);
}

fn metrics(total: u32, repaid: u32, vouchers: u32, tenure: u64) -> RetentionMetrics {
    RetentionMetrics {
        borrower: BORROWER,
        total_loans: total,
        successful_repayments: repaid,
        defaults: 0,
        distinct_vouchers_count: vouchers,
        first_loan_timestamp: 0,
        last_loan_timestamp: 0,
        average_loan_interval: 0,
        platform_tenure: tenure,
    }
}

#[test]
fn engagement_score_components() {
    assert_eq!(calculate_engagement_score(Some(metrics(5, 5, 10, 2 * YEAR))).unwrap(), 100);
    assert_eq!(calculate_engagement_score(Some(metrics(0, 0, 0, 0))).unwrap(), 0);
    assert_eq!(calculate_engagement_score(Some(metrics(2, 1, 3, YEAR))).unwrap(), 10 + 17 + 10 + 6);
    assert_eq!(calculate_engagement_score(Some(metrics(9, 9, 40, YEAR - 1))).unwrap(), 25 + 35 + 20);
    // the success rate is capped at 100%, so the score stays within 100
    assert_eq!(calculate_engagement_score(Some(metrics(1, 10, 0, 0))).unwrap(), 5 + 35);
    assert_eq!(
        calculate_engagement_score(Some(metrics(u32::MAX, u32::MAX, u32::MAX, 3 * YEAR))).unwrap(),
        100
    );
    assert_eq!(calculate_engagement_score(None).unwrap_err(), ContractError::NotFound);
}

#[test]
fn borrower_stories_skip_missing_ones() {
    let make = |id: u64| SuccessStory {
        borrower: BORROWER,
        title: format!("t{}", id),
        content: String::new(),
        submitted_at: 0,
        story_id: id,
        is_published: false,
    };
    let stories = get_borrower_success_stories(vec![Some(make(1)), None, Some(make(3)), Some(make(4))])
        .unwrap();
    let ids: Vec<u64> = stories.iter().map(|s| s.story_id).collect();
    assert_eq!(ids, vec![1, 3, 4]);
    assert!(get_borrower_success_stories(vec![]).unwrap().is_empty());
}

#[test]
fn similar_borrowers_need_a_profile() {
    assert_eq!(find_similar_borrowers(None, 5).unwrap_err(), ContractError::NotFound);
    let p = set_borrower_profile(1, None, BORROWER, String::new(), None, None).unwrap();
    assert!(find_similar_borrowers(Some(p), 5).unwrap().is_empty());
}
