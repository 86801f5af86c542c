//! Cross-default clauses and loan acceleration: when a borrower defaults on
//! a trusted external platform, the borrower's active loan can be
//! accelerated so that its balance becomes immediately due.
//!
//! The configuration, the analytics, the event counter, the borrower's
//! active loan and the loan record are records of contract storage: the
//! functions take what is stored and return what to store.
use vstd::prelude::*;

use crate::common::{AccountId, ContractError, div_i128, div_trunc, fits_i128, sat_add, saturating_add_i128};

verus! {

/// Grace period before a loan can be accelerated, in seconds (24 hours).
pub const DEFAULT_ACCELERATION_DELAY_SECS: u64 = 86_400;

/// Share of the remaining balance that becomes due, in percent.
pub const DEFAULT_ACCELERATION_PERCENTAGE: u32 = 100;

/// Lifecycle of a loan.
#[derive(Clone, Copy, Debug, PartialEq, Eq, Structural)]
pub enum LoanStatus {
    Active,
    Repaid,
    Defaulted,
}

/// The parts of a loan record that acceleration reads and changes.
#[derive(Clone, Copy, Debug)]
pub struct LoanRecord {
    pub loan_id: u64,
    pub borrower: AccountId,
    pub principal: i128,
    /// Part of the principal already repaid
    pub amount_repaid: i128,
    pub created_timestamp: u64,
    pub status: LoanStatus,
}

/// Evidence that a borrower has defaulted on another platform.
#[derive(Debug)]
pub struct ExternalDefaultProof {
    /// Borrower who defaulted
    pub borrower: AccountId,
    /// Source platform (e.g. "stellar_lend")
    pub source_platform: String,
    /// Loan identifier on the source platform
    pub external_loan_id: String,
    /// Default amount in the source platform's asset
    pub default_amount: i128,
    /// Timestamp when the default was detected
    pub default_timestamp: u64,
    /// Cryptographic proof (e.g. a signed attestation)
    pub proof_data: Vec<u8>,
    /// Whether the proof was verified
    pub proof_verified: bool,
}

/// Status of a cross-default event.
#[derive(Clone, Copy, Debug, PartialEq, Eq, Structural)]
pub enum CrossDefaultStatus {
    /// Default detected and recorded
    Detected,
    /// Acceleration triggered, loan balance due
    Accelerated,
    /// Acceleration reversed (the external default was resolved)
    Reversed,
    /// Default resolved by borrower payment
    Resolved,
}

/// Record of a triggered acceleration.
#[derive(Debug)]
pub struct CrossDefaultRecord {
    /// Loan that was accelerated
    pub loan_id: u64,
    /// Borrower
    pub borrower: AccountId,
    /// Source platform of the external default
    pub source_platform: String,
    /// External loan that triggered the acceleration
    pub external_loan_id: String,
    /// Timestamp of the external default
    pub external_default_timestamp: u64,
    /// Timestamp when acceleration was triggered
    pub acceleration_timestamp: u64,
    /// Balance that became immediately due
    pub balance_due: i128,
    /// Status of the event
    pub status: CrossDefaultStatus,
}

/// Cross-default configuration.
#[derive(Debug)]
pub struct CrossDefaultConfig {
    /// Whether cross-default clauses are enabled
    pub enabled: bool,
    /// Accepted external platforms
    pub trusted_platforms: Vec<String>,
    /// Whether a proof must be verified by an oracle
    pub require_oracle_verification: bool,
    /// Grace period in seconds
    pub acceleration_delay_secs: u64,
    /// Minimum default amount that triggers acceleration
    pub min_default_amount: i128,
    /// Share of the remaining balance that becomes due (100 = 100%)
    pub acceleration_percentage: u32,
}

/// Cross-default analytics.
#[derive(Clone, Copy, Debug)]
pub struct CrossDefaultAnalytics {
    /// Total number of cross-default events recorded
    pub total_events: u32,
    /// Number of loans accelerated
    pub loans_accelerated: u32,
    /// Total amount accelerated
    pub total_amount_accelerated: i128,
    /// Number of accelerations resolved
    pub resolved_accelerations: u32,
}

/// What registering an external default produces.
#[derive(Debug)]
pub struct ExternalDefaultOutcome {
    /// Identifier of the recorded event
    pub event_id: u64,
    /// Value to store in the event counter
    pub counter: u64,
    /// The accelerated loan and the record of its acceleration, if a loan was accelerated
    pub acceleration: Option<(LoanRecord, CrossDefaultRecord)>,
    /// The analytics to store
    pub analytics: CrossDefaultAnalytics,
}

// ---------------------------------------------------------------------------
// Configuration
// ---------------------------------------------------------------------------

/// The platform names that a configuration trusts.
pub open spec fn trusted_names(config: CrossDefaultConfig) -> Seq<Seq<char>> {
    config.trusted_platforms@.map_values(|p: String| p@)
}

/// Whether two configurations agree on everything but the trusted platforms.
pub open spec fn same_settings(a: CrossDefaultConfig, b: CrossDefaultConfig) -> bool {
    &&& a.enabled == b.enabled
    &&& a.require_oracle_verification == b.require_oracle_verification
    &&& a.acceleration_delay_secs == b.acceleration_delay_secs
    &&& a.min_default_amount == b.min_default_amount
    &&& a.acceleration_percentage == b.acceleration_percentage
}

/// Whether a configuration is the one in force before any is stored: enabled,
/// no trusted platform, oracle verification required, a 24-hour grace period,
/// the contract's minimum loan amount as the minimum default, and 100% of the
/// remaining balance due on acceleration.
pub open spec fn is_default_config(c: CrossDefaultConfig, min_loan_amount: i128) -> bool {
    &&& c.enabled
    &&& c.trusted_platforms@.len() == 0
    &&& c.require_oracle_verification
    &&& c.acceleration_delay_secs == DEFAULT_ACCELERATION_DELAY_SECS
    &&& c.min_default_amount == min_loan_amount
    &&& c.acceleration_percentage == DEFAULT_ACCELERATION_PERCENTAGE
}

/// The trusted platforms with this one listed last, unless it is listed already.
pub open spec fn with_platform(s: Seq<String>, name: String) -> Seq<String> {
    if s.map_values(|p: String| p@).contains(name@) {
        s
    } else {
        s.push(name)
    }
}

/// The trusted platforms with every entry of this name taken out, in order.
pub open spec fn without_platform(s: Seq<String>, name: Seq<char>) -> Seq<String>
    decreases s.len(),
{
    if s.len() == 0 {
        Seq::empty()
    } else {
        let rest = without_platform(s.drop_last(), name);
        if s.last()@ == name {
            rest
        } else {
            rest.push(s.last())
        }
    }
}

/// The cross-default configuration: the stored one, or the default
/// configuration (given the contract's minimum loan amount) where none is stored.
pub fn get_cross_default_config(stored: Option<CrossDefaultConfig>, min_loan_amount: i128) -> (r:
    Result<CrossDefaultConfig, ContractError>)
    ensures
        stored is Some ==> r == Ok::<CrossDefaultConfig, ContractError>(stored->0),
        stored is None ==> (r matches Ok(c) && is_default_config(c, min_loan_amount)),
{
    match stored {
        Some(c) => Ok(c),
        None => Ok(
            CrossDefaultConfig {
                enabled: true,
                trusted_platforms: Vec::new(),
                require_oracle_verification: true,
                acceleration_delay_secs: DEFAULT_ACCELERATION_DELAY_SECS,
                min_default_amount: min_loan_amount,
                acceleration_percentage: DEFAULT_ACCELERATION_PERCENTAGE,
            },
        ),
    }
}

/// Update the cross-default configuration: the acceleration percentage must
/// lie in 1..=100. Returns the configuration to store, which keeps the
/// trusted platforms of the current one.
pub fn update_cross_default_config(
    current: CrossDefaultConfig,
    admin: AccountId,
    enabled: bool,
    require_oracle_verification: bool,
    acceleration_delay_secs: u64,
    min_default_amount: i128,
    acceleration_percentage: u32,
) -> (r: Result<CrossDefaultConfig, ContractError>)
    ensures
        acceleration_percentage == 0 || acceleration_percentage > 100 ==> r == Err::<
            CrossDefaultConfig,
            ContractError,
        >(ContractError::InvalidParameters),
        1 <= acceleration_percentage <= 100 ==> r == Ok::<CrossDefaultConfig, ContractError>(
            CrossDefaultConfig {
                enabled,
                trusted_platforms: current.trusted_platforms,
                require_oracle_verification,
                acceleration_delay_secs,
                min_default_amount,
                acceleration_percentage,
            },
        ),
{
    if acceleration_percentage == 0 || acceleration_percentage > 100 {
        return Err(ContractError::InvalidParameters);
    }
    Ok(
        CrossDefaultConfig {
            enabled,
            trusted_platforms: current.trusted_platforms,
            require_oracle_verification,
            acceleration_delay_secs,
            min_default_amount,
            acceleration_percentage,
        },
    )
}

/// Add a trusted platform for cross-default verification. A platform that is
/// already trusted is not listed twice. Returns the configuration to store.
pub fn add_trusted_platform(config: CrossDefaultConfig, platform_name: String) -> (r: Result<
    CrossDefaultConfig,
    ContractError,
>)
    ensures
        r matches Ok(c) && same_settings(c, config) && c.trusted_platforms@ == with_platform(
            config.trusted_platforms@,
            platform_name,
        ),
{
    let mut config = config;
    if !is_trusted_platform(&config, &platform_name) {
        config.trusted_platforms.push(platform_name);
    }
    Ok(config)
}

/// Remove a trusted platform: every entry of that name is taken out. Returns
/// the configuration to store.
pub fn remove_trusted_platform(config: CrossDefaultConfig, platform_name: String) -> (r: Result<
    CrossDefaultConfig,
    ContractError,
>)
    ensures
        r matches Ok(c) && same_settings(c, config) && c.trusted_platforms@ == without_platform(
            config.trusted_platforms@,
            platform_name@,
        ),
{
    let mut kept: Vec<String> = Vec::new();
    let mut i: usize = 0;
    while i < config.trusted_platforms.len()
        invariant
            i <= config.trusted_platforms@.len(),
            kept@ == without_platform(config.trusted_platforms@.take(i as int), platform_name@),
        decreases config.trusted_platforms@.len() - i,
    {
        assert(config.trusted_platforms@.take(i as int + 1).drop_last()
            =~= config.trusted_platforms@.take(i as int));
        if config.trusted_platforms[i] != platform_name {
            kept.push(config.trusted_platforms[i].clone());
        }
        i = i + 1;
    }
    assert(config.trusted_platforms@.take(i as int) =~= config.trusted_platforms@);
    Ok(
        CrossDefaultConfig {
            enabled: config.enabled,
            trusted_platforms: kept,
            require_oracle_verification: config.require_oracle_verification,
            acceleration_delay_secs: config.acceleration_delay_secs,
            min_default_amount: config.min_default_amount,
            acceleration_percentage: config.acceleration_percentage,
        },
    )
}

// ---------------------------------------------------------------------------
// Acceleration
// ---------------------------------------------------------------------------

/// Unpaid part of a loan's principal (none where it is repaid in full).
pub open spec fn remaining_balance(loan: LoanRecord) -> int {
    if loan.amount_repaid >= loan.principal {
        0
    } else {
        loan.principal - loan.amount_repaid
    }
}

/// Balance that becomes due when a loan with this remaining balance is
/// accelerated: the configured percentage of it, rounded toward zero.
pub open spec fn accelerated_balance(remaining: int, percentage: u32) -> int {
    div_trunc(remaining * percentage, 100)
}

/// Whether the grace period since the loan was created has elapsed at `now`.
pub open spec fn grace_period_elapsed(config: CrossDefaultConfig, loan: LoanRecord, now: u64) -> bool {
    (if now >= loan.created_timestamp {
        now - loan.created_timestamp
    } else {
        0
    }) >= config.acceleration_delay_secs
}

/// Whether the loan is accelerated at `now`.
pub open spec fn loan_accelerates(config: CrossDefaultConfig, loan: LoanRecord, now: u64) -> bool {
    loan.status == LoanStatus::Active && grace_period_elapsed(config, loan, now)
}

/// Whether the balance due on accelerating this loan is computed without overflow.
pub open spec fn acceleration_fits(config: CrossDefaultConfig, loan: LoanRecord) -> bool {
    &&& fits_i128(loan.principal - loan.amount_repaid)
    &&& fits_i128(remaining_balance(loan) * config.acceleration_percentage)
}

/// The outcome of accelerating the borrower's active loan.
pub open spec fn acceleration_outcome(
    now: u64,
    config: CrossDefaultConfig,
    active_loan_id: Option<u64>,
    loan: Option<LoanRecord>,
    borrower: AccountId,
    source_platform: String,
    external_loan_id: String,
) -> Result<Option<(LoanRecord, CrossDefaultRecord)>, ContractError> {
    match active_loan_id {
        None => Ok(None),
        Some(loan_id) => match loan {
            None => Err(ContractError::LoanNotFound),
            Some(l) => if loan_accelerates(config, l, now) {
                Ok(
                    Some(
                        (
                            LoanRecord { status: LoanStatus::Defaulted, ..l },
                            CrossDefaultRecord {
                                loan_id,
                                borrower,
                                source_platform,
                                external_loan_id,
                                external_default_timestamp: now,
                                acceleration_timestamp: now,
                                balance_due: accelerated_balance(
                                    remaining_balance(l),
                                    config.acceleration_percentage,
                                ) as i128,
                                status: CrossDefaultStatus::Accelerated,
                            },
                        ),
                    ),
                )
            } else {
                Ok(None)
            },
        },
    }
}

/// Whether the default passes the amount, enablement, trust and minimum checks.
pub open spec fn default_accepted(config: CrossDefaultConfig, source_platform: String, default_amount: i128) -> bool {
    &&& default_amount > 0
    &&& config.enabled
    &&& trusted_names(config).contains(source_platform@)
    &&& default_amount >= config.min_default_amount
}

/// The error with which an external default is refused, checked in order.
pub open spec fn default_refusal(
    config: CrossDefaultConfig,
    source_platform: String,
    default_amount: i128,
) -> ContractError {
    if default_amount > 0 && !config.enabled {
        ContractError::InvalidStateTransition
    } else {
        ContractError::InvalidParameters
    }
}

/// Analytics before any cross-default event.
pub open spec fn empty_analytics() -> CrossDefaultAnalytics {
    CrossDefaultAnalytics {
        total_events: 0,
        loans_accelerated: 0,
        total_amount_accelerated: 0,
        resolved_accelerations: 0,
    }
}

/// The stored analytics, or empty analytics where none are stored.
pub open spec fn stored_analytics(analytics: Option<CrossDefaultAnalytics>) -> CrossDefaultAnalytics {
    match analytics {
        Some(a) => a,
        None => empty_analytics(),
    }
}

/// `u32::saturating_add` of one.
pub open spec fn count_one_more(n: u32) -> u32 {
    if n == u32::MAX {
        n
    } else {
        (n + 1) as u32
    }
}

/// The analytics after one more cross-default event, which accelerated
/// `acceleration` (counts and sums saturate).
pub open spec fn analytics_after(
    a: CrossDefaultAnalytics,
    acceleration: Option<(LoanRecord, CrossDefaultRecord)>,
) -> CrossDefaultAnalytics {
    match acceleration {
        None => CrossDefaultAnalytics { total_events: count_one_more(a.total_events), ..a },
        Some((_, record)) => CrossDefaultAnalytics {
            total_events: count_one_more(a.total_events),
            loans_accelerated: count_one_more(a.loans_accelerated),
            total_amount_accelerated: sat_add(
                a.total_amount_accelerated as int,
                record.balance_due as int,
            ),
            resolved_accelerations: a.resolved_accelerations,
        },
    }
}

/// The outcome of registering an external default, on inputs where nothing overflows.
pub open spec fn external_default_outcome(
    now: u64,
    config: CrossDefaultConfig,
    counter: Option<u64>,
    analytics: Option<CrossDefaultAnalytics>,
    active_loan_id: Option<u64>,
    loan: Option<LoanRecord>,
    borrower: AccountId,
    source_platform: String,
    external_loan_id: String,
    default_amount: i128,
) -> Result<ExternalDefaultOutcome, ContractError> {
    if !default_accepted(config, source_platform, default_amount) {
        Err(default_refusal(config, source_platform, default_amount))
    } else {
        let event_id: u64 = match counter {
            Some(c) => c,
            None => 0,
        };
        match acceleration_outcome(
            now,
            config,
            active_loan_id,
            loan,
            borrower,
            source_platform,
            external_loan_id,
        ) {
            Err(e) => Err(e),
            Ok(acc) => Ok(
                ExternalDefaultOutcome {
                    event_id,
                    counter: (event_id + 1) as u64,
                    acceleration: acc,
                    analytics: analytics_after(stored_analytics(analytics), acc),
                },
            ),
        }
    }
}

/// Whether `name` is one of the trusted platforms.
fn is_trusted_platform(config: &CrossDefaultConfig, name: &String) -> (r: bool)
    ensures
        r == trusted_names(*config).contains(name@),
{
    let mut i: usize = 0;
    while i < config.trusted_platforms.len()
        invariant
            i <= config.trusted_platforms@.len(),
            forall|j: int| 0 <= j < i ==> config.trusted_platforms@[j]@ != name@,
        decreases config.trusted_platforms@.len() - i,
    {
        if config.trusted_platforms[i] == *name {
            assert(trusted_names(*config)[i as int] == name@);
            return true;
        }
        i = i + 1;
    }
    assert forall|j: int| 0 <= j < trusted_names(*config).len() implies trusted_names(*config)[j]
        != name@ by {
        assert(config.trusted_platforms@[j]@ != name@);
    }
    false
}

/// Verify a cross-default proof. Every proof is accepted: there is no oracle
/// to consult yet.
pub fn verify_cross_default_proof(
    proof_data: &Vec<u8>,
    borrower: AccountId,
    source_platform: &String,
) -> (r: Result<(), ContractError>)
    ensures
        r is Ok,
{
    Ok(())
}

/// Record a cross-default event: it takes the next event identifier from the
/// counter. Returns the identifier and the counter's new value.
pub fn record_cross_default_event(counter: Option<u64>) -> (r: Result<(u64, u64), ContractError>)
    requires
        counter is Some ==> counter->0 < u64::MAX,
    ensures
        r == Ok::<(u64, u64), ContractError>(
            match counter {
                Some(c) => (c, (c + 1) as u64),
                None => (0, 1),
            },
        ),
{
    let event_id: u64 = match counter {
        Some(c) => c,
        None => 0,
    };
    Ok((event_id, event_id + 1))
}

/// Store a cross-default record: it is kept under the accelerated loan's
/// identifier, apart from the event counter. Returns that key.
pub fn store_cross_default_record(record: &CrossDefaultRecord) -> (r: Result<u64, ContractError>)
    ensures
        r == Ok::<u64, ContractError>(record.loan_id),
{
    Ok(record.loan_id)
}

/// Accelerate the borrower's active loan, if any, once the grace period has
/// elapsed: the loan is marked defaulted and the configured share of its
/// remaining balance becomes due.
pub fn accelerate_loans_for_borrower(
    now: u64,
    config: &CrossDefaultConfig,
    active_loan_id: Option<u64>,
    loan: Option<LoanRecord>,
    borrower: AccountId,
    source_platform: String,
    external_loan_id: String,
    default_amount: i128,
) -> (r: Result<Option<(LoanRecord, CrossDefaultRecord)>, ContractError>)
    requires
        active_loan_id is Some && loan is Some && loan_accelerates(*config, loan->0, now)
            ==> acceleration_fits(*config, loan->0),
    ensures
        r == acceleration_outcome(
            now,
            *config,
            active_loan_id,
            loan,
            borrower,
            source_platform,
            external_loan_id,
        ),
{
    let loan_id = match active_loan_id {
        Some(id) => id,
        None => return Ok(None),
    };
    let mut loan_record = match loan {
        Some(l) => l,
        None => return Err(ContractError::LoanNotFound),
    };

    if loan_record.status == LoanStatus::Active {
        let elapsed = now.saturating_sub(loan_record.created_timestamp);
        if elapsed >= config.acceleration_delay_secs {
            loan_record.status = LoanStatus::Defaulted;

            let remaining: i128 = if loan_record.amount_repaid >= loan_record.principal {
                0
            } else {
                loan_record.principal - loan_record.amount_repaid
            };
            let amount_due = div_i128(remaining * config.acceleration_percentage as i128, 100);

            let record = CrossDefaultRecord {
                loan_id,
                borrower,
                source_platform,
                external_loan_id,
                external_default_timestamp: now,
                acceleration_timestamp: now,
                balance_due: amount_due,
                status: CrossDefaultStatus::Accelerated,
            };
            return Ok(Some((loan_record, record)));
        }
    }
    Ok(None)
}

/// Register an external default and accelerate the borrower's active loan
/// when the configuration's conditions are met. The event takes the next
/// identifier, and the analytics count it, with the acceleration if any.
pub fn register_external_default(
    now: u64,
    config: &CrossDefaultConfig,
    counter: Option<u64>,
    analytics: Option<CrossDefaultAnalytics>,
    active_loan_id: Option<u64>,
    loan: Option<LoanRecord>,
    borrower: AccountId,
    source_platform: String,
    external_loan_id: String,
    default_amount: i128,
    default_timestamp: u64,
    proof_data: Vec<u8>,
) -> (r: Result<ExternalDefaultOutcome, ContractError>)
    requires
        default_accepted(*config, source_platform, default_amount) ==> {
            &&& counter is Some ==> counter->0 < u64::MAX
            &&& active_loan_id is Some && loan is Some && loan_accelerates(*config, loan->0, now)
                ==> acceleration_fits(*config, loan->0)
        },
    ensures
        r == external_default_outcome(
            now,
            *config,
            counter,
            analytics,
            active_loan_id,
            loan,
            borrower,
            source_platform,
            external_loan_id,
            default_amount,
        ),
{
    if default_amount <= 0 {
        return Err(ContractError::InvalidParameters);
    }
    if !config.enabled {
        return Err(ContractError::InvalidStateTransition);
    }
    if !is_trusted_platform(config, &source_platform) {
        return Err(ContractError::InvalidParameters);
    }
    if default_amount < config.min_default_amount {
        return Err(ContractError::InvalidParameters);
    }
    if config.require_oracle_verification {
        verify_cross_default_proof(&proof_data, borrower, &source_platform)?;
    }

    let (event_id, new_counter) = record_cross_default_event(counter)?;

    let acceleration = accelerate_loans_for_borrower(
        now,
        config,
        active_loan_id,
        loan,
        borrower,
        source_platform,
        external_loan_id,
        default_amount,
    )?;

    let mut stats = match analytics {
        Some(a) => a,
        None => CrossDefaultAnalytics {
            total_events: 0,
            loans_accelerated: 0,
            total_amount_accelerated: 0,
            resolved_accelerations: 0,
        },
    };
    stats.total_events = stats.total_events.saturating_add(1);
    match &acceleration {
        Some((_, record)) => {
            stats.loans_accelerated = stats.loans_accelerated.saturating_add(1);
            stats.total_amount_accelerated = saturating_add_i128(
                stats.total_amount_accelerated,
                record.balance_due,
            );
        },
        None => {},
    }

    Ok(ExternalDefaultOutcome { event_id, counter: new_counter, acceleration, analytics: stats })
}

/// Whether the loan has been accelerated (it is marked defaulted).
pub fn is_loan_accelerated(loan: Option<LoanRecord>) -> (r: Result<bool, ContractError>)
    ensures
        r == match loan {
            None => Err::<bool, ContractError>(ContractError::LoanNotFound),
            Some(l) => Ok(l.status == LoanStatus::Defaulted),
        },
{
    match loan {
        None => Err(ContractError::LoanNotFound),
        Some(l) => Ok(l.status == LoanStatus::Defaulted),
    }
}

/// Cross-default analytics: the stored figures, or zeros before any event.
pub fn get_cross_default_analytics(analytics: Option<CrossDefaultAnalytics>) -> (r: Result<
    CrossDefaultAnalytics,
    ContractError,
>)
    ensures
        r == Ok::<CrossDefaultAnalytics, ContractError>(stored_analytics(analytics)),
{
    match analytics {
        Some(a) => Ok(a),
        None => Ok(
            CrossDefaultAnalytics {
                total_events: 0,
                loans_accelerated: 0,
                total_amount_accelerated: 0,
                resolved_accelerations: 0,
            },
        ),
    }
}

// ---------------------------------------------------------------------------
// Properties of cross-default acceleration
// ---------------------------------------------------------------------------

/// A default reported from a platform that is not trusted is refused, and
/// triggers no acceleration.
pub proof fn lemma_untrusted_platform_refused(
    now: u64,
    config: CrossDefaultConfig,
    counter: Option<u64>,
    analytics: Option<CrossDefaultAnalytics>,
    active_loan_id: Option<u64>,
    loan: Option<LoanRecord>,
    borrower: AccountId,
    source_platform: String,
    external_loan_id: String,
    default_amount: i128,
)
    requires
        config.enabled,
        !trusted_names(config).contains(source_platform@),
    ensures
        external_default_outcome(
            now,
            config,
            counter,
            analytics,
            active_loan_id,
            loan,
            borrower,
            source_platform,
            external_loan_id,
            default_amount,
        ) == Err::<ExternalDefaultOutcome, ContractError>(ContractError::InvalidParameters),
{
}

/// A default below the configured minimum amount is refused.
pub proof fn lemma_minimum_default_amount_enforced(
    now: u64,
    config: CrossDefaultConfig,
    counter: Option<u64>,
    analytics: Option<CrossDefaultAnalytics>,
    active_loan_id: Option<u64>,
    loan: Option<LoanRecord>,
    borrower: AccountId,
    source_platform: String,
    external_loan_id: String,
    default_amount: i128,
)
    requires
        config.enabled,
        default_amount < config.min_default_amount,
    ensures
        external_default_outcome(
            now,
            config,
            counter,
            analytics,
            active_loan_id,
            loan,
            borrower,
            source_platform,
            external_loan_id,
            default_amount,
        ) == Err::<ExternalDefaultOutcome, ContractError>(ContractError::InvalidParameters),
{
}

/// A platform that has been added is trusted: once the configuration lists
/// it, a default from it that is positive and at least the minimum, under an
/// enabled configuration, is accepted.
pub proof fn lemma_added_platform_trusted(
    config: CrossDefaultConfig,
    updated: CrossDefaultConfig,
    platform_name: String,
    default_amount: i128,
)
    requires
        same_settings(updated, config),
        updated.trusted_platforms@ == with_platform(config.trusted_platforms@, platform_name),
        config.enabled,
        default_amount > 0,
        default_amount >= config.min_default_amount,
    ensures
        trusted_names(updated).contains(platform_name@),
        default_accepted(updated, platform_name, default_amount),
{
    if trusted_names(config).contains(platform_name@) {
        assert(trusted_names(updated) =~= trusted_names(config));
    } else {
        let n = config.trusted_platforms@.len() as int;
        assert(trusted_names(updated)[n] == platform_name@);
    }
}

proof fn lemma_without_platform_excludes(s: Seq<String>, name: Seq<char>)
    ensures
        forall|i: int|
            0 <= i < without_platform(s, name).len() ==> (#[trigger] without_platform(s, name)[i])@
                != name,
    decreases s.len(),
{
    if s.len() > 0 {
        let rest = without_platform(s.drop_last(), name);
        lemma_without_platform_excludes(s.drop_last(), name);
        assert forall|i: int| 0 <= i < without_platform(s, name).len() implies (
        #[trigger] without_platform(s, name)[i])@ != name by {
            if i < rest.len() {
                assert(without_platform(s, name)[i] == rest[i]);
            }
        }
    }
}

/// A platform that has been removed is no longer trusted, so a default
/// reported from it is refused.
pub proof fn lemma_removed_platform_untrusted(
    config: CrossDefaultConfig,
    updated: CrossDefaultConfig,
    platform_name: String,
)
    requires
        updated.trusted_platforms@ == without_platform(config.trusted_platforms@, platform_name@),
    ensures
        !trusted_names(updated).contains(platform_name@),
{
    lemma_without_platform_excludes(config.trusted_platforms@, platform_name@);
    if trusted_names(updated).contains(platform_name@) {
        let i = choose|i: int| 0 <= i < trusted_names(updated).len() && trusted_names(updated)[i]
            == platform_name@;
        assert(without_platform(config.trusted_platforms@, platform_name@)[i]@ != platform_name@);
    }
}

/// A loan is accelerated only when it is active and its grace period has
/// elapsed; it is then marked defaulted, and the configured share of its
/// remaining balance becomes due.
pub proof fn lemma_acceleration_respects_grace_period(
    now: u64,
    config: CrossDefaultConfig,
    counter: Option<u64>,
    analytics: Option<CrossDefaultAnalytics>,
    active_loan_id: Option<u64>,
    loan: Option<LoanRecord>,
    borrower: AccountId,
    source_platform: String,
    external_loan_id: String,
    default_amount: i128,
)
    requires
        external_default_outcome(
            now,
            config,
            counter,
            analytics,
            active_loan_id,
            loan,
            borrower,
            source_platform,
            external_loan_id,
            default_amount,
        ) matches Ok(o) && o.acceleration is Some,
    ensures
        loan is Some,
        loan->0.status == LoanStatus::Active,
        grace_period_elapsed(config, loan->0, now),
        ({
            let o = external_default_outcome(
                now,
                config,
                counter,
                analytics,
                active_loan_id,
                loan,
                borrower,
                source_platform,
                external_loan_id,
                default_amount,
            )->Ok_0;
            let (accelerated, record) = o.acceleration->0;
            &&& accelerated.status == LoanStatus::Defaulted
            &&& record.balance_due == accelerated_balance(
                remaining_balance(loan->0),
                config.acceleration_percentage,
            ) as i128
            &&& record.loan_id == active_loan_id->0
        }),
{
    let acc = acceleration_outcome(
        now,
        config,
        active_loan_id,
        loan,
        borrower,
        source_platform,
        external_loan_id,
    );
    assert(acc->Ok_0 is Some);
}

/// Under a 100% acceleration percentage, the whole remaining balance becomes due.
pub proof fn lemma_full_acceleration_makes_balance_due(loan: LoanRecord)
    ensures
        accelerated_balance(remaining_balance(loan), DEFAULT_ACCELERATION_PERCENTAGE)
            == remaining_balance(loan),
{
    vstd::arithmetic::div_mod::lemma_div_by_multiple(remaining_balance(loan), 100);
}

/// Each registered default takes the next event identifier and advances the
/// counter by one, whether or not it accelerates a loan; the analytics count
/// one more event and, for an acceleration, one more accelerated loan and
/// its balance due.
pub proof fn lemma_event_ids_advance(
    now: u64,
    config: CrossDefaultConfig,
    counter: Option<u64>,
    analytics: Option<CrossDefaultAnalytics>,
    active_loan_id: Option<u64>,
    loan: Option<LoanRecord>,
    borrower: AccountId,
    source_platform: String,
    external_loan_id: String,
    default_amount: i128,
)
    requires
        external_default_outcome(
            now,
            config,
            counter,
            analytics,
            active_loan_id,
            loan,
            borrower,
            source_platform,
            external_loan_id,
            default_amount,
        ) is Ok,
        counter is Some ==> counter->0 < u64::MAX,
        stored_analytics(analytics).total_events < u32::MAX,
        stored_analytics(analytics).loans_accelerated < u32::MAX,
    ensures
        ({
            let o = external_default_outcome(
                now,
                config,
                counter,
                analytics,
                active_loan_id,
                loan,
                borrower,
                source_platform,
                external_loan_id,
                default_amount,
            )->Ok_0;
            let before = stored_analytics(analytics);
            &&& o.event_id == (match counter {
                Some(c) => c,
                None => 0,
            })
            &&& o.counter == o.event_id + 1
            &&& o.analytics.total_events == before.total_events + 1
            &&& o.analytics.resolved_accelerations == before.resolved_accelerations
            &&& o.acceleration is None ==> o.analytics.loans_accelerated == before.loans_accelerated
                && o.analytics.total_amount_accelerated == before.total_amount_accelerated
            &&& o.acceleration is Some ==> o.analytics.loans_accelerated == before.loans_accelerated
                + 1 && o.analytics.total_amount_accelerated == sat_add(
                before.total_amount_accelerated as int,
                (o.acceleration->0).1.balance_due as int,
            )
        }),
{
}

} // verus!
