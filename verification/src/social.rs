//! Social features of the borrower network: borrower profiles, success
//! stories and testimonials, and retention and engagement metrics.
//!
//! Profiles, stories, story lists, the story counter and metrics are records
//! of contract storage: the functions take what is stored and return what
//! to store.
use vstd::prelude::*;

use crate::common::{AccountId, ContractError};

verus! {

/// Longest accepted bio, in bytes.
pub const MAX_BIO_LEN: usize = 500;

/// Longest accepted story title, in bytes.
pub const MAX_STORY_TITLE_LEN: usize = 100;

/// Longest accepted story content, in bytes.
pub const MAX_STORY_CONTENT_LEN: usize = 2000;

/// Seconds in a 365-day year.
pub const SECS_PER_YEAR: u64 = 31_536_000;

/// A borrower's public profile.
#[derive(Debug)]
pub struct BorrowerProfile {
    pub borrower: AccountId,
    pub bio: String,
    pub created_at: u64,
    pub updated_at: u64,
    pub sector: Option<String>,
    pub region: Option<String>,
    pub success_story_consent: bool,
}

/// A borrower's success story.
#[derive(Debug)]
pub struct SuccessStory {
    pub borrower: AccountId,
    pub title: String,
    pub content: String,
    pub submitted_at: u64,
    pub story_id: u64,
    pub is_published: bool,
}

/// Retention metrics of a borrower.
#[derive(Clone, Copy, Debug)]
pub struct RetentionMetrics {
    pub borrower: AccountId,
    pub total_loans: u32,
    pub successful_repayments: u32,
    pub defaults: u32,
    pub distinct_vouchers_count: u32,
    pub first_loan_timestamp: u64,
    pub last_loan_timestamp: u64,
    pub average_loan_interval: u64,
    pub platform_tenure: u64,
}

/// Length of a string in bytes (UTF-8), as `str::len` reports it.
pub open spec fn byte_len(s: String) -> usize {
    vstd::utf8::encode_utf8(s@).len() as usize
}

/// Create or update a borrower profile. An existing profile keeps its
/// creation time and story consent; a new one starts without consent.
pub fn set_borrower_profile(
    now: u64,
    existing: Option<BorrowerProfile>,
    borrower: AccountId,
    bio: String,
    sector: Option<String>,
    region: Option<String>,
) -> (r: Result<BorrowerProfile, ContractError>)
    ensures
        byte_len(bio) > MAX_BIO_LEN ==> (r matches Err(e) && e == ContractError::InvalidInput),
        byte_len(bio) <= MAX_BIO_LEN ==> r == Ok::<BorrowerProfile, ContractError>(
            BorrowerProfile {
                borrower,
                bio,
                created_at: match existing {
                    Some(p) => p.created_at,
                    None => now,
                },
                updated_at: now,
                sector,
                region,
                success_story_consent: match existing {
                    Some(p) => p.success_story_consent,
                    None => false,
                },
            },
        ),
{
    if bio.as_str().len() > MAX_BIO_LEN {
        return Err(ContractError::InvalidInput);
    }

    let profile = match existing {
        Some(existing) => BorrowerProfile {
            borrower,
            bio,
            created_at: existing.created_at,
            updated_at: now,
            sector,
            region,
            success_story_consent: existing.success_story_consent,
        },
        None => BorrowerProfile {
            borrower,
            bio,
            created_at: now,
            updated_at: now,
            sector,
            region,
            success_story_consent: false,
        },
    };
    Ok(profile)
}

/// A borrower's stored profile.
pub fn get_borrower_profile(profile: Option<BorrowerProfile>) -> (r: Result<
    BorrowerProfile,
    ContractError,
>)
    ensures
        profile is None ==> (r matches Err(e) && e == ContractError::NotFound),
        profile is Some ==> r == Ok::<BorrowerProfile, ContractError>(profile->0),
{
    match profile {
        Some(p) => Ok(p),
        None => Err(ContractError::NotFound),
    }
}

/// Update the success story consent of a borrower profile.
pub fn set_success_story_consent(now: u64, profile: Option<BorrowerProfile>, consent: bool) -> (r:
    Result<BorrowerProfile, ContractError>)
    ensures
        profile is None ==> (r matches Err(e) && e == ContractError::NotFound),
        profile is Some ==> r == Ok::<BorrowerProfile, ContractError>(
            BorrowerProfile { success_story_consent: consent, updated_at: now, ..profile->0 },
        ),
{
    let mut profile = match profile {
        Some(p) => p,
        None => return Err(ContractError::NotFound),
    };
    profile.success_story_consent = consent;
    profile.updated_at = now;
    Ok(profile)
}

/// Submit a success story. It takes the next story identifier and is created
/// unpublished; its identifier is appended to the borrower's story list.
/// Returns the story, the borrower's story list and the identifier (the
/// counter's new value).
pub fn submit_success_story(
    now: u64,
    counter: Option<u64>,
    story_ids: Option<Vec<u64>>,
    borrower: AccountId,
    title: String,
    content: String,
) -> (r: Result<(SuccessStory, Vec<u64>, u64), ContractError>)
    ensures
        byte_len(title) > MAX_STORY_TITLE_LEN || byte_len(content) > MAX_STORY_CONTENT_LEN ==> (
        r matches Err(e) && e == ContractError::InvalidInput),
        byte_len(title) <= MAX_STORY_TITLE_LEN && byte_len(content) <= MAX_STORY_CONTENT_LEN ==> ({
            let previous: u64 = match counter {
                Some(c) => c,
                None => 0,
            };
            let ids: Seq<u64> = match story_ids {
                Some(v) => v@,
                None => Seq::empty(),
            };
            if previous == u64::MAX {
                r matches Err(e) && e == ContractError::ArithmeticError
            } else {
                let id = (previous + 1) as u64;
                r matches Ok((story, list, new_counter)) && story == (SuccessStory {
                    borrower,
                    title,
                    content,
                    submitted_at: now,
                    story_id: id,
                    is_published: false,
                }) && list@ == ids.push(id) && new_counter == id
            }
        }),
{
    if title.as_str().len() > MAX_STORY_TITLE_LEN || content.as_str().len() > MAX_STORY_CONTENT_LEN {
        return Err(ContractError::InvalidInput);
    }

    let previous: u64 = match counter {
        Some(c) => c,
        None => 0,
    };
    let story_id = match previous.checked_add(1) {
        Some(id) => id,
        None => return Err(ContractError::ArithmeticError),
    };

    let story = SuccessStory {
        borrower,
        title,
        content,
        submitted_at: now,
        story_id,
        is_published: false,
    };

    let mut stories = match story_ids {
        Some(v) => v,
        None => Vec::new(),
    };
    stories.push(story_id);

    Ok((story, stories, story_id))
}

/// Publish a success story. Only the borrower who submitted it may publish it.
pub fn publish_success_story(story: Option<SuccessStory>, borrower: AccountId) -> (r: Result<
    SuccessStory,
    ContractError,
>)
    ensures
        story is None ==> (r matches Err(e) && e == ContractError::NotFound),
        story is Some && story->0.borrower != borrower ==> (r matches Err(e) && e
            == ContractError::Unauthorized),
        story is Some && story->0.borrower == borrower ==> r == Ok::<SuccessStory, ContractError>(
            SuccessStory { is_published: true, ..story->0 },
        ),
{
    let mut story = match story {
        Some(s) => s,
        None => return Err(ContractError::NotFound),
    };
    if story.borrower != borrower {
        return Err(ContractError::Unauthorized);
    }
    story.is_published = true;
    Ok(story)
}

/// A stored success story.
pub fn get_success_story(story: Option<SuccessStory>) -> (r: Result<SuccessStory, ContractError>)
    ensures
        story is None ==> (r matches Err(e) && e == ContractError::NotFound),
        story is Some ==> r == Ok::<SuccessStory, ContractError>(story->0),
{
    match story {
        Some(s) => Ok(s),
        None => Err(ContractError::NotFound),
    }
}

/// The stories that are present, in order.
pub open spec fn present_stories(s: Seq<Option<SuccessStory>>) -> Seq<SuccessStory>
    decreases s.len(),
{
    if s.len() == 0 {
        Seq::empty()
    } else {
        let rest = present_stories(s.drop_last());
        match s.last() {
            Some(story) => rest.push(story),
            None => rest,
        }
    }
}

/// All success stories of a borrower, given the stories stored under the
/// borrower's story identifiers, in order: missing stories are skipped.
pub fn get_borrower_success_stories(stories: Vec<Option<SuccessStory>>) -> (r: Result<
    Vec<SuccessStory>,
    ContractError,
>)
    ensures
        r matches Ok(v) && v@ == present_stories(stories@),
{
    let ghost all = stories@;
    let mut stories = stories;
    let mut found: Vec<SuccessStory> = Vec::new();
    let mut remaining: Vec<SuccessStory> = Vec::new();
    // take the stories from the back, then restore their order
    while stories.len() > 0
        invariant
            stories@.len() <= all.len(),
            stories@ == all.take(stories@.len() as int),
            present_stories(all) == present_stories(stories@) + remaining@.reverse(),
        decreases stories@.len(),
    {
        let ghost before = stories@;
        let last = stories.pop().unwrap();
        assert(before.drop_last() =~= stories@);
        assert(stories@ =~= all.take(stories@.len() as int));
        match last {
            Some(story) => {
                let ghost prev_remaining = remaining@;
                remaining.push(story);
                assert(remaining@.reverse() =~= seq![story] + prev_remaining.reverse());
                assert(present_stories(before) == present_stories(stories@).push(story));
                assert(present_stories(stories@).push(story) + prev_remaining.reverse()
                    =~= present_stories(stories@) + (seq![story] + prev_remaining.reverse()));
            },
            None => {},
        }
    }
    assert(present_stories(stories@) =~= Seq::<SuccessStory>::empty());
    while remaining.len() > 0
        invariant
            present_stories(all) == found@ + remaining@.reverse(),
        decreases remaining@.len(),
    {
        let ghost before = remaining@;
        let story = remaining.pop().unwrap();
        assert(before.reverse() =~= seq![story] + remaining@.reverse());
        let ghost prev_found = found@;
        found.push(story);
        assert(prev_found + (seq![story] + remaining@.reverse()) =~= found@ + remaining@.reverse());
    }
    assert(found@ + remaining@.reverse() =~= found@);
    Ok(found)
}

/// Platform tenure at `now` of a borrower whose first loan was at `first`
/// (zero if that lies in the future).
pub open spec fn platform_tenure(now: u64, first: u64) -> u64 {
    if now >= first {
        (now - first) as u64
    } else {
        0
    }
}

/// Update the retention metrics of a borrower: tenure since the first loan
/// and the average interval between loans.
pub fn update_retention_metrics(
    now: u64,
    borrower: AccountId,
    total_loans: u32,
    successful_repayments: u32,
    defaults: u32,
    distinct_vouchers_count: u32,
    first_loan_timestamp: u64,
    last_loan_timestamp: u64,
) -> (r: Result<RetentionMetrics, ContractError>)
    ensures
        ({
            let tenure = platform_tenure(now, first_loan_timestamp);
            r == Ok::<RetentionMetrics, ContractError>(
                RetentionMetrics {
                    borrower,
                    total_loans,
                    successful_repayments,
                    defaults,
                    distinct_vouchers_count,
                    first_loan_timestamp,
                    last_loan_timestamp,
                    average_loan_interval: if total_loans > 1 {
                        (tenure / (total_loans - 1) as u64) as u64
                    } else {
                        0
                    },
                    platform_tenure: tenure,
                },
            )
        }),
{
    let platform_tenure: u64 = match now.checked_sub(first_loan_timestamp) {
        Some(t) => t,
        None => 0,
    };

    let average_loan_interval: u64 = if total_loans > 1 {
        platform_tenure / (total_loans as u64 - 1)
    } else {
        0
    };

    Ok(
        RetentionMetrics {
            borrower,
            total_loans,
            successful_repayments,
            defaults,
            distinct_vouchers_count,
            first_loan_timestamp,
            last_loan_timestamp,
            average_loan_interval,
            platform_tenure,
        },
    )
}

/// A borrower's stored retention metrics.
pub fn get_retention_metrics(metrics: Option<RetentionMetrics>) -> (r: Result<
    RetentionMetrics,
    ContractError,
>)
    ensures
        r == match metrics {
            Some(m) => Ok::<RetentionMetrics, ContractError>(m),
            None => Err(ContractError::NotFound),
        },
{
    match metrics {
        Some(m) => Ok(m),
        None => Err(ContractError::NotFound),
    }
}

/// Borrowers similar to a borrower, for peer discovery. There is no index of
/// borrowers to match against yet, so the list is empty once the borrower's
/// profile is found.
pub fn find_similar_borrowers(target: Option<BorrowerProfile>, limit: u32) -> (r: Result<
    Vec<BorrowerProfile>,
    ContractError,
>)
    ensures
        target is None ==> (r matches Err(e) && e == ContractError::NotFound),
        target is Some ==> (r matches Ok(v) && v@.len() == 0),
{
    let _target_profile = get_borrower_profile(target)?;
    let results: Vec<BorrowerProfile> = Vec::new();
    Ok(results)
}

/// Engagement score, between 0 and 100: loan activity (5 points per loan,
/// at most 25), repayment success rate (capped at 100%, worth up to 35
/// points), platform tenure (10 after one year, 20 after two) and voucher
/// diversity (2 points per voucher, at most 20).
pub open spec fn engagement_score(m: RetentionMetrics) -> int {
    let loan_score = if m.total_loans * 5 < 25 {
        m.total_loans * 5
    } else {
        25
    };
    let success_score = if m.total_loans > 0 {
        let rate = (m.successful_repayments * 100) / (m.total_loans as int);
        (if rate < 100 {
            rate
        } else {
            100
        }) * 35 / 100
    } else {
        0
    };
    let tenure_score: int = if m.platform_tenure >= 2 * SECS_PER_YEAR {
        20
    } else if m.platform_tenure >= SECS_PER_YEAR {
        10
    } else {
        0
    };
    let diversity_score = if m.distinct_vouchers_count * 2 < 20 {
        m.distinct_vouchers_count * 2
    } else {
        20
    };
    loan_score + success_score + tenure_score + diversity_score
}

/// Calculate the engagement score of a borrower from the stored metrics.
pub fn calculate_engagement_score(metrics: Option<RetentionMetrics>) -> (r: Result<
    u32,
    ContractError,
>)
    ensures
        r == match metrics {
            Some(m) => Ok::<u32, ContractError>(engagement_score(m) as u32),
            None => Err(ContractError::NotFound),
        },
        r matches Ok(s) ==> s == engagement_score(metrics->0),
{
    let metrics = get_retention_metrics(metrics)?;
    proof {
        lemma_engagement_score_at_most_100(metrics);
    }

    // Loan activity: 5 points per loan, at most 25
    let loan_activity = metrics.total_loans as u64 * 5;
    let loan_score: u32 = if loan_activity < 25 {
        loan_activity as u32
    } else {
        25
    };

    // Repayment success rate, capped at 100%: up to 35 points
    let success_score: u32 = if metrics.total_loans > 0 {
        let rate = (metrics.successful_repayments as u64 * 100) / metrics.total_loans as u64;
        let capped = if rate < 100 {
            rate
        } else {
            100
        };
        (capped * 35 / 100) as u32
    } else {
        0
    };

    // Platform tenure: 10 points after one year, 20 after two
    let tenure_score: u32 = if metrics.platform_tenure >= 2 * SECS_PER_YEAR {
        20
    } else if metrics.platform_tenure >= SECS_PER_YEAR {
        10
    } else {
        0
    };

    // Voucher diversity: 2 points per voucher, at most 20
    let diversity = metrics.distinct_vouchers_count as u64 * 2;
    let diversity_score: u32 = if diversity < 20 {
        diversity as u32
    } else {
        20
    };

    Ok(loan_score + success_score + tenure_score + diversity_score)
}

// ---------------------------------------------------------------------------
// Properties of the engagement score
// ---------------------------------------------------------------------------

/// The engagement score always lies between 0 and 100.
pub proof fn lemma_engagement_score_at_most_100(m: RetentionMetrics)
    ensures
        0 <= engagement_score(m) <= 100,
{
    if m.total_loans > 0 {
        vstd::arithmetic::div_mod::lemma_div_pos_is_pos(m.successful_repayments * 100, m.total_loans as int);
    }
}

} // verus!
