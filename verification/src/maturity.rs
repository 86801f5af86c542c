//! Tenure-based interest bonus for vouchers: 0.1% for every six months of
//! continuous vouching, capped at 1%, plus a 0.5% loyalty bonus from two
//! years on.
//!
//! The maturity record of a vouch is a record of contract storage: the
//! functions take the stored record and return the record to store.
use vstd::prelude::*;

use crate::common::{AccountId, BPS_DENOMINATOR, ContractError, div_trunc, fits_i128};

verus! {

/// Bonus earned for each full maturity period, in basis points (0.1%).
pub const MATURITY_BONUS_INCREMENT_BPS: i128 = 10;

/// Length of a maturity period in seconds (half of a 365-day year).
pub const MATURITY_BONUS_PERIOD_SECS: u64 = 15_768_000;

/// Cap of the maturity bonus, in basis points (1%).
pub const MATURITY_BONUS_MAX_BPS: i128 = 100;

/// Tenure after which a vouch earns the loyalty bonus, in seconds (two 365-day years).
pub const LOYALTY_BONUS_THRESHOLD_SECS: u64 = 63_072_000;

/// Loyalty bonus, in basis points (0.5%).
pub const LOYALTY_BONUS_BPS: i128 = 50;

/// Maturity tracking of one vouch.
#[derive(Clone, Copy, Debug)]
pub struct VouchMaturityRecord {
    pub voucher: AccountId,
    pub borrower: AccountId,
    pub token: AccountId,
    pub vouch_created_at: u64,
    pub last_maturity_update: u64,
    pub maturity_bonus_bps: i128,
    pub loyalty_bonus_eligible: bool,
}

/// Maturity bonus after `elapsed` seconds: 0.1% per full period, at most 1%.
pub open spec fn maturity_bonus(elapsed: u64) -> i128 {
    let earned = (elapsed / MATURITY_BONUS_PERIOD_SECS) * MATURITY_BONUS_INCREMENT_BPS;
    if earned > MATURITY_BONUS_MAX_BPS {
        MATURITY_BONUS_MAX_BPS
    } else {
        earned as i128
    }
}

/// The record after its maturity is brought up to date at `now`.
pub open spec fn matured_record(r: VouchMaturityRecord, now: u64) -> VouchMaturityRecord {
    let elapsed = (now - r.vouch_created_at) as u64;
    VouchMaturityRecord {
        maturity_bonus_bps: maturity_bonus(elapsed),
        loyalty_bonus_eligible: r.loyalty_bonus_eligible || elapsed >= LOYALTY_BONUS_THRESHOLD_SECS,
        last_maturity_update: now,
        ..r
    }
}

/// Total bonus of a record: its maturity bonus plus the loyalty bonus if eligible.
pub open spec fn total_bonus(r: VouchMaturityRecord) -> i128 {
    (r.maturity_bonus_bps + if r.loyalty_bonus_eligible {
        LOYALTY_BONUS_BPS
    } else {
        0
    }) as i128
}

/// The outcome of bringing a stored maturity record up to date at `now`.
pub open spec fn maturity_update_outcome(now: u64, record: Option<VouchMaturityRecord>) -> Result<
    (i128, VouchMaturityRecord),
    ContractError,
> {
    match record {
        None => Err(ContractError::InvalidInput),
        Some(r) => if now < r.vouch_created_at {
            Err(ContractError::ArithmeticError)
        } else {
            let m = matured_record(r, now);
            Ok((m.maturity_bonus_bps, m))
        },
    }
}

/// Start maturity tracking for a new vouch.
pub fn initialize_vouch_maturity(
    now: u64,
    voucher: AccountId,
    borrower: AccountId,
    token: AccountId,
) -> (r: Result<VouchMaturityRecord, ContractError>)
    ensures
        r == Ok::<VouchMaturityRecord, ContractError>(
            VouchMaturityRecord {
                voucher,
                borrower,
                token,
                vouch_created_at: now,
                last_maturity_update: now,
                maturity_bonus_bps: 0,
                loyalty_bonus_eligible: false,
            },
        ),
{
    Ok(
        VouchMaturityRecord {
            voucher,
            borrower,
            token,
            vouch_created_at: now,
            last_maturity_update: now,
            maturity_bonus_bps: 0,
            loyalty_bonus_eligible: false,
        },
    )
}

/// Calculate and update the maturity bonus of a vouch. Returns the bonus, in
/// basis points, and the updated record.
pub fn update_maturity_bonus(now: u64, record: Option<VouchMaturityRecord>) -> (r: Result<
    (i128, VouchMaturityRecord),
    ContractError,
>)
    ensures
        r == maturity_update_outcome(now, record),
{
    let mut maturity = match record {
        Some(m) => m,
        None => return Err(ContractError::InvalidInput),
    };

    let time_elapsed = match now.checked_sub(maturity.vouch_created_at) {
        Some(t) => t,
        None => return Err(ContractError::ArithmeticError),
    };

    // 0.1% per six months, capped at 1%
    let periods_elapsed = time_elapsed / MATURITY_BONUS_PERIOD_SECS;
    let mut new_bonus_bps = match (periods_elapsed as i128).checked_mul(
        MATURITY_BONUS_INCREMENT_BPS,
    ) {
        Some(b) => b,
        None => return Err(ContractError::ArithmeticError),
    };
    if new_bonus_bps > MATURITY_BONUS_MAX_BPS {
        new_bonus_bps = MATURITY_BONUS_MAX_BPS;
    }

    // Loyalty bonus from two years on
    if time_elapsed >= LOYALTY_BONUS_THRESHOLD_SECS {
        maturity.loyalty_bonus_eligible = true;
    }

    maturity.maturity_bonus_bps = new_bonus_bps;
    maturity.last_maturity_update = now;

    Ok((new_bonus_bps, maturity))
}

/// The total interest bonus of a vouch (maturity plus loyalty), in basis
/// points, after updating its maturity. Returns the bonus and the updated record.
pub fn get_total_interest_bonus(now: u64, record: Option<VouchMaturityRecord>) -> (r: Result<
    (i128, VouchMaturityRecord),
    ContractError,
>)
    ensures
        r == match maturity_update_outcome(now, record) {
            Err(e) => Err::<(i128, VouchMaturityRecord), ContractError>(e),
            Ok((_, m)) => Ok((total_bonus(m), m)),
        },
{
    let (maturity_bonus, maturity) = update_maturity_bonus(now, record)?;

    let mut total_bonus = maturity_bonus;
    if maturity.loyalty_bonus_eligible {
        total_bonus = match total_bonus.checked_add(LOYALTY_BONUS_BPS) {
            Some(t) => t,
            None => return Err(ContractError::ArithmeticError),
        };
    }

    Ok((total_bonus, maturity))
}

/// A yield adjusted by a bonus: the yield plus its bonus share, rounded toward zero.
pub open spec fn adjusted_yield(base_yield: i128, bonus_bps: i128) -> int {
    base_yield + div_trunc(base_yield * bonus_bps, BPS_DENOMINATOR as int)
}

/// Apply the maturity-based interest adjustment to a yield. Returns the
/// adjusted yield and the updated maturity record.
pub fn apply_maturity_interest_adjustment(
    now: u64,
    record: Option<VouchMaturityRecord>,
    base_yield: i128,
) -> (r: Result<(i128, VouchMaturityRecord), ContractError>)
    ensures
        r == match maturity_update_outcome(now, record) {
            Err(e) => Err::<(i128, VouchMaturityRecord), ContractError>(e),
            Ok((_, m)) => {
                let bonus = total_bonus(m);
                if bonus == 0 {
                    Ok((base_yield, m))
                } else if !fits_i128(base_yield * bonus) || !fits_i128(
                    adjusted_yield(base_yield, bonus),
                ) {
                    Err(ContractError::ArithmeticError)
                } else {
                    Ok((adjusted_yield(base_yield, bonus) as i128, m))
                }
            },
        },
{
    let (bonus_bps, maturity) = get_total_interest_bonus(now, record)?;

    if bonus_bps == 0 {
        return Ok((base_yield, maturity));
    }

    let product = match base_yield.checked_mul(bonus_bps) {
        Some(p) => p,
        None => return Err(ContractError::ArithmeticError),
    };
    let bonus_amount = match product.checked_div(BPS_DENOMINATOR) {
        Some(b) => b,
        None => return Err(ContractError::ArithmeticError),
    };
    let adjusted_yield = match base_yield.checked_add(bonus_amount) {
        Some(a) => a,
        None => return Err(ContractError::ArithmeticError),
    };

    Ok((adjusted_yield, maturity))
}

/// The stored maturity record of a vouch.
pub fn get_vouch_maturity(record: Option<VouchMaturityRecord>) -> (r: Result<
    VouchMaturityRecord,
    ContractError,
>)
    ensures
        r == match record {
            Some(m) => Ok::<VouchMaturityRecord, ContractError>(m),
            None => Err(ContractError::InvalidInput),
        },
{
    match record {
        Some(m) => Ok(m),
        None => Err(ContractError::InvalidInput),
    }
}

// ---------------------------------------------------------------------------
// Properties of the maturity bonus
// ---------------------------------------------------------------------------

/// The maturity bonus never decreases as time passes, never exceeds 1%, and
/// grows by 0.1% for each full six-month period until it reaches the cap.
pub proof fn lemma_maturity_bonus_monotone(e1: u64, e2: u64)
    requires
        e1 <= e2,
    ensures
        0 <= maturity_bonus(e1) <= maturity_bonus(e2) <= MATURITY_BONUS_MAX_BPS,
{
    vstd::arithmetic::div_mod::lemma_div_is_ordered(
        e1 as int,
        e2 as int,
        MATURITY_BONUS_PERIOD_SECS as int,
    );
}

/// After `k` full periods the bonus is `k` times 0.1%, up to 1%.
pub proof fn lemma_maturity_bonus_per_period(k: u64, extra: u64)
    requires
        extra < MATURITY_BONUS_PERIOD_SECS,
        k * MATURITY_BONUS_PERIOD_SECS + extra <= u64::MAX,
    ensures
        maturity_bonus((k * MATURITY_BONUS_PERIOD_SECS + extra) as u64) == if k * 10 > 100 {
            100
        } else {
            k * 10
        },
{
    vstd::arithmetic::div_mod::lemma_fundamental_div_mod_converse(
        k * MATURITY_BONUS_PERIOD_SECS + extra,
        MATURITY_BONUS_PERIOD_SECS as int,
        k as int,
        extra as int,
    );
}

/// The total bonus of an updated record is at most 1.5%; a vouch that was
/// once loyal stays loyal; the loyalty bonus is granted from two years on.
pub proof fn lemma_total_bonus_bounded(r: VouchMaturityRecord, now: u64)
    requires
        now >= r.vouch_created_at,
    ensures
        0 <= total_bonus(matured_record(r, now)) <= MATURITY_BONUS_MAX_BPS + LOYALTY_BONUS_BPS,
        r.loyalty_bonus_eligible ==> matured_record(r, now).loyalty_bonus_eligible,
        now - r.vouch_created_at >= LOYALTY_BONUS_THRESHOLD_SECS ==> matured_record(
            r,
            now,
        ).loyalty_bonus_eligible,
{
    lemma_maturity_bonus_monotone((now - r.vouch_created_at) as u64, (now - r.vouch_created_at) as u64);
}

/// Updating the maturity at a later time never lowers the bonus.
pub proof fn lemma_bonus_never_decreases(r: VouchMaturityRecord, now: u64, later: u64)
    requires
        r.vouch_created_at <= now <= later,
    ensures
        maturity_bonus((now - r.vouch_created_at) as u64) <= maturity_bonus(
            (later - r.vouch_created_at) as u64,
        ),
        total_bonus(matured_record(r, now)) <= total_bonus(matured_record(r, later)),
{
    lemma_maturity_bonus_monotone(
        (now - r.vouch_created_at) as u64,
        (later - r.vouch_created_at) as u64,
    );
}

/// A non-negative yield is never lowered by the adjustment.
pub proof fn lemma_adjustment_never_lowers_yield(base_yield: i128, bonus_bps: i128)
    requires
        base_yield >= 0,
        bonus_bps >= 0,
    ensures
        adjusted_yield(base_yield, bonus_bps) >= base_yield,
{
    assert(base_yield * bonus_bps >= 0) by (nonlinear_arith)
        requires base_yield >= 0, bonus_bps >= 0;
    vstd::arithmetic::div_mod::lemma_div_pos_is_pos(base_yield * bonus_bps, 10_000);
}

} // verus!
