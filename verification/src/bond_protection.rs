//! Bonds that protect a voucher's stake against slashing, with optional
//! bond insurance.
//!
//! A bond, its insurance and the voucher's statistics are records of contract
//! storage: each function takes the records currently stored (or `None` where
//! there is none) and returns the records to store.
use vstd::prelude::*;

use crate::common::{AccountId, ContractError, div_i128, div_trunc, fits_i128};

verus! {

/// Bond insurance premium rate (3% = 300 basis points).
pub const BOND_INSURANCE_PREMIUM_BPS: i128 = 300;

/// Maximum bond coverage as a share of the vouch stake (50% = 5000 basis points).
pub const MAX_BOND_COVERAGE_BPS: i128 = 5000;

/// Lifecycle of a protection bond.
#[derive(Clone, Copy, Debug, PartialEq, Eq, Structural)]
pub enum BondStatus {
    Active,
    PartiallyUsed,
    Exhausted,
    Released,
}

/// Lifecycle of a bond insurance.
#[derive(Clone, Copy, Debug, PartialEq, Eq, Structural)]
pub enum InsuranceStatus {
    Active,
    Claimed,
    Released,
}

/// A bond staked by a voucher to protect a vouch.
#[derive(Clone, Copy, Debug)]
pub struct VouchProtectionBond {
    pub voucher: AccountId,
    pub loan_id: u64,
    pub vouch_id: u64,
    pub bond_amount: i128,
    pub protected_stake: i128,
    pub created_at: u64,
    pub amount_used: i128,
    pub released_at: Option<u64>,
    pub status: BondStatus,
    pub has_insurance: bool,
}

/// Insurance bought on a bond.
#[derive(Clone, Copy, Debug)]
pub struct BondInsuranceRecord {
    pub voucher: AccountId,
    pub loan_id: u64,
    pub insured_bond_amount: i128,
    pub premium_paid: i128,
    pub max_coverage: i128,
    pub amount_claimed: i128,
    pub status: InsuranceStatus,
    pub purchased_at: u64,
}

/// Bond statistics of one voucher.
#[derive(Clone, Copy, Debug)]
pub struct BondStats {
    pub voucher: AccountId,
    pub total_bonded: i128,
    pub total_used: i128,
    pub active_bonds: u32,
    pub times_bond_used: u32,
    pub total_insurance_premiums: i128,
    pub insurance_claims_paid: u32,
    pub total_insurance_payout: i128,
    pub last_activity: u64,
}

/// What applying bond coverage to a slash produces.
#[derive(Clone, Copy, Debug)]
pub struct BondCoverage {
    /// Amount of the slash covered by the bond and its insurance.
    pub covered: i128,
    /// The bond to store.
    pub bond: VouchProtectionBond,
    /// The statistics to store.
    pub stats: BondStats,
    /// The insurance to store (unchanged where no payout was made).
    pub insurance: Option<BondInsuranceRecord>,
}

/// What releasing a bond produces.
#[derive(Clone, Copy, Debug)]
pub struct BondRelease {
    /// Unused bond amount refunded to the voucher.
    pub refund: i128,
    /// The bond to store.
    pub bond: VouchProtectionBond,
    /// The insurance to store.
    pub insurance: Option<BondInsuranceRecord>,
    /// The statistics to store.
    pub stats: BondStats,
}

/// Largest bond that a stake admits: 50% of it, rounded toward zero.
pub open spec fn max_bond(protected_stake: i128) -> int {
    div_trunc(protected_stake * MAX_BOND_COVERAGE_BPS, 10_000)
}

/// Statistics of a voucher who has none stored yet.
pub open spec fn fresh_bond_stats(voucher: AccountId, now: u64) -> BondStats {
    BondStats {
        voucher,
        total_bonded: 0,
        total_used: 0,
        active_bonds: 0,
        times_bond_used: 0,
        total_insurance_premiums: 0,
        insurance_claims_paid: 0,
        total_insurance_payout: 0,
        last_activity: now,
    }
}

/// Whether the bond request passes the pause, amount and coverage checks.
pub open spec fn bond_request_valid(paused: bool, protected_stake: i128, bond_amount: i128) -> bool {
    !paused && bond_amount > 0 && bond_amount <= max_bond(protected_stake)
}

fn fresh_stats(voucher: AccountId, now: u64) -> (s: BondStats)
    ensures
        s == fresh_bond_stats(voucher, now),
{
    BondStats {
        voucher,
        total_bonded: 0,
        total_used: 0,
        active_bonds: 0,
        times_bond_used: 0,
        total_insurance_premiums: 0,
        insurance_claims_paid: 0,
        total_insurance_payout: 0,
        last_activity: now,
    }
}

/// Stake a bond for vouch protection. The bond may cover up to 50% of the
/// vouch stake. Returns the new bond and the voucher's updated statistics.
pub fn stake_bond_for_vouch_protection(
    paused: bool,
    now: u64,
    loan_id: u64,
    vouch_id: u64,
    voucher: AccountId,
    protected_stake: i128,
    bond_amount: i128,
    stats: Option<BondStats>,
) -> (r: Result<(VouchProtectionBond, BondStats), ContractError>)
    requires
        !paused && bond_amount > 0 ==> fits_i128(protected_stake * MAX_BOND_COVERAGE_BPS),
        bond_request_valid(paused, protected_stake, bond_amount) && stats is Some
            && fits_i128(stats->0.total_bonded + bond_amount) ==> stats->0.active_bonds < u32::MAX,
    ensures
        paused ==> r == Err::<(VouchProtectionBond, BondStats), ContractError>(
            ContractError::ContractPaused,
        ),
        !paused && !bond_request_valid(paused, protected_stake, bond_amount) ==> r == Err::<
            (VouchProtectionBond, BondStats),
            ContractError,
        >(ContractError::InvalidAmount),
        bond_request_valid(paused, protected_stake, bond_amount) ==> ({
            let base = match stats {
                Some(s) => s,
                None => fresh_bond_stats(voucher, now),
            };
            if !fits_i128(base.total_bonded + bond_amount) {
                r == Err::<(VouchProtectionBond, BondStats), ContractError>(
                    ContractError::ArithmeticError,
                )
            } else {
                r == Ok::<(VouchProtectionBond, BondStats), ContractError>(
                    (
                        VouchProtectionBond {
                            voucher,
                            loan_id,
                            vouch_id,
                            bond_amount,
                            protected_stake,
                            created_at: now,
                            amount_used: 0,
                            released_at: None,
                            status: BondStatus::Active,
                            has_insurance: false,
                        },
                        BondStats {
                            total_bonded: (base.total_bonded + bond_amount) as i128,
                            active_bonds: (base.active_bonds + 1) as u32,
                            last_activity: now,
                            ..base
                        },
                    ),
                )
            }
        }),
{
    if paused {
        return Err(ContractError::ContractPaused);
    }
    if bond_amount <= 0 {
        return Err(ContractError::InvalidAmount);
    }
    // A bond can cover up to 50% of the vouch stake
    let max_bond = div_i128(protected_stake * MAX_BOND_COVERAGE_BPS, 10_000);
    if bond_amount > max_bond {
        return Err(ContractError::InvalidAmount);
    }

    let bond = VouchProtectionBond {
        voucher,
        loan_id,
        vouch_id,
        bond_amount,
        protected_stake,
        created_at: now,
        amount_used: 0,
        released_at: None,
        status: BondStatus::Active,
        has_insurance: false,
    };

    let mut stats = match stats {
        Some(s) => s,
        None => fresh_stats(voucher, now),
    };
    stats.total_bonded = match stats.total_bonded.checked_add(bond_amount) {
        Some(v) => v,
        None => return Err(ContractError::ArithmeticError),
    };
    stats.active_bonds = stats.active_bonds + 1;
    stats.last_activity = now;

    Ok((bond, stats))
}

/// Premium of an insurance on a bond of this amount: 3%, rounded toward zero.
pub open spec fn insurance_premium(bond_amount: i128) -> int {
    div_trunc(bond_amount * BOND_INSURANCE_PREMIUM_BPS, 10_000)
}

/// The outcome of purchasing bond insurance, on inputs where nothing overflows.
pub open spec fn insurance_purchase_outcome(
    paused: bool,
    now: u64,
    loan_id: u64,
    voucher: AccountId,
    bond_amount: i128,
    bond: Option<VouchProtectionBond>,
    stats: Option<BondStats>,
) -> Result<(BondInsuranceRecord, VouchProtectionBond, BondStats), ContractError> {
    if paused {
        Err(ContractError::ContractPaused)
    } else if bond is None || bond->0.has_insurance || stats is None {
        Err(ContractError::InvalidAmount)
    } else {
        let premium = insurance_premium(bond_amount);
        let s = stats->0;
        if !fits_i128(s.total_insurance_premiums + premium) {
            Err(ContractError::ArithmeticError)
        } else {
            Ok(
                (
                    BondInsuranceRecord {
                        voucher,
                        loan_id,
                        insured_bond_amount: bond_amount,
                        premium_paid: premium as i128,
                        max_coverage: bond_amount,
                        amount_claimed: 0,
                        status: InsuranceStatus::Active,
                        purchased_at: now,
                    },
                    VouchProtectionBond { has_insurance: true, ..bond->0 },
                    BondStats {
                        total_insurance_premiums: (s.total_insurance_premiums + premium) as i128,
                        last_activity: now,
                        ..s
                    },
                ),
            )
        }
    }
}

/// Purchase the optional bond insurance (3% premium) for a bond that has none.
/// Returns the insurance, the bond marked as insured and the updated statistics.
pub fn purchase_bond_insurance(
    paused: bool,
    now: u64,
    loan_id: u64,
    voucher: AccountId,
    bond_amount: i128,
    bond: Option<VouchProtectionBond>,
    stats: Option<BondStats>,
) -> (r: Result<(BondInsuranceRecord, VouchProtectionBond, BondStats), ContractError>)
    requires
        !paused && bond is Some && !bond->0.has_insurance ==> fits_i128(
            bond_amount * BOND_INSURANCE_PREMIUM_BPS,
        ),
    ensures
        r == insurance_purchase_outcome(paused, now, loan_id, voucher, bond_amount, bond, stats),
{
    if paused {
        return Err(ContractError::ContractPaused);
    }
    let mut bond = match bond {
        Some(b) => b,
        None => return Err(ContractError::InvalidAmount),
    };
    if bond.has_insurance {
        return Err(ContractError::InvalidAmount);
    }

    // Premium: 3% of the bond amount
    let premium = div_i128(bond_amount * BOND_INSURANCE_PREMIUM_BPS, 10_000);

    let insurance = BondInsuranceRecord {
        voucher,
        loan_id,
        insured_bond_amount: bond_amount,
        premium_paid: premium,
        max_coverage: bond_amount,
        amount_claimed: 0,
        status: InsuranceStatus::Active,
        purchased_at: now,
    };

    bond.has_insurance = true;

    let mut stats = match stats {
        Some(s) => s,
        None => return Err(ContractError::InvalidAmount),
    };
    stats.total_insurance_premiums = match stats.total_insurance_premiums.checked_add(premium) {
        Some(v) => v,
        None => return Err(ContractError::ArithmeticError),
    };
    stats.last_activity = now;

    Ok((insurance, bond, stats))
}

/// The smaller of two integers.
pub open spec fn min_int(a: int, b: int) -> int {
    if a <= b {
        a
    } else {
        b
    }
}

/// A bond in one of these states can no longer cover a slash.
pub open spec fn bond_closed(b: VouchProtectionBond) -> bool {
    b.status == BondStatus::Released || b.status == BondStatus::Exhausted
}

/// Part of a slash that the bond itself covers: the slash, at most the bond's unused amount.
pub open spec fn bond_share(b: VouchProtectionBond, slash_amount: i128) -> int {
    min_int(slash_amount as int, b.bond_amount - b.amount_used)
}

/// The bond after covering `used` of a slash.
pub open spec fn bond_after_use(b: VouchProtectionBond, used: int) -> VouchProtectionBond {
    VouchProtectionBond {
        amount_used: (b.amount_used + used) as i128,
        status: if b.amount_used + used >= b.bond_amount {
            BondStatus::Exhausted
        } else {
            BondStatus::PartiallyUsed
        },
        ..b
    }
}

/// Whether the insurance steps in for the rest of a slash that the bond covered `used` of.
pub open spec fn insurance_applies(
    b: VouchProtectionBond,
    insurance: Option<BondInsuranceRecord>,
    slash_amount: i128,
    used: int,
) -> bool {
    &&& b.has_insurance
    &&& used < slash_amount
    &&& insurance is Some
    &&& insurance->0.status == InsuranceStatus::Active
}

/// Insurance payout for the rest of a slash: the shortfall, at most the coverage not yet claimed.
pub open spec fn insurance_payout(
    ins: BondInsuranceRecord,
    slash_amount: i128,
    used: int,
) -> int {
    min_int(slash_amount - used, ins.max_coverage - ins.amount_claimed)
}

/// The inputs on which applying bond coverage overflows an unchecked `i128` or `u32` operation.
pub open spec fn bond_coverage_overflows(
    slash_amount: i128,
    bond: Option<VouchProtectionBond>,
    stats: Option<BondStats>,
    insurance: Option<BondInsuranceRecord>,
) -> bool {
    match bond {
        None => false,
        Some(b) => if bond_closed(b) {
            false
        } else if !fits_i128(b.bond_amount - b.amount_used) {
            true
        } else {
            let used = bond_share(b, slash_amount);
            if !fits_i128(b.amount_used + used) {
                false
            } else {
                match stats {
                    None => false,
                    Some(s) => if !fits_i128(s.total_used + used) {
                        false
                    } else if s.times_bond_used == u32::MAX {
                        true
                    } else if insurance_applies(b, insurance, slash_amount, used) {
                        let ins = insurance->0;
                        if !fits_i128(slash_amount - used) || !fits_i128(
                            ins.max_coverage - ins.amount_claimed,
                        ) {
                            true
                        } else {
                            let payout = insurance_payout(ins, slash_amount, used);
                            payout > 0 && fits_i128(ins.amount_claimed + payout)
                                && s.insurance_claims_paid == u32::MAX
                        }
                    } else {
                        false
                    },
                }
            }
        },
    }
}

/// The outcome of applying bond coverage, on inputs where nothing overflows.
pub open spec fn bond_coverage_outcome(
    now: u64,
    slash_amount: i128,
    bond: Option<VouchProtectionBond>,
    stats: Option<BondStats>,
    insurance: Option<BondInsuranceRecord>,
) -> Result<BondCoverage, ContractError> {
    match bond {
        None => Err(ContractError::InvalidAmount),
        Some(b) => if bond_closed(b) {
            Err(ContractError::InvalidAmount)
        } else {
            let used = bond_share(b, slash_amount);
            if !fits_i128(b.amount_used + used) {
                Err(ContractError::ArithmeticError)
            } else {
                match stats {
                    None => Err(ContractError::InvalidAmount),
                    Some(s) => if !fits_i128(s.total_used + used) {
                        Err(ContractError::ArithmeticError)
                    } else {
                        let new_bond = bond_after_use(b, used);
                        let ins = insurance->0;
                        let payout = insurance_payout(ins, slash_amount, used);
                        if insurance_applies(b, insurance, slash_amount, used) && payout > 0 {
                            if !fits_i128(ins.amount_claimed + payout) || !fits_i128(
                                s.total_insurance_payout + payout,
                            ) {
                                Err(ContractError::ArithmeticError)
                            } else {
                                Ok(
                                    BondCoverage {
                                        covered: (used + payout) as i128,
                                        bond: new_bond,
                                        stats: BondStats {
                                            total_used: (s.total_used + used) as i128,
                                            times_bond_used: (s.times_bond_used + 1) as u32,
                                            insurance_claims_paid: (s.insurance_claims_paid
                                                + 1) as u32,
                                            total_insurance_payout: (s.total_insurance_payout
                                                + payout) as i128,
                                            last_activity: now,
                                            ..s
                                        },
                                        insurance: Some(
                                            BondInsuranceRecord {
                                                amount_claimed: (ins.amount_claimed
                                                    + payout) as i128,
                                                status: if ins.amount_claimed + payout
                                                    >= ins.max_coverage {
                                                    InsuranceStatus::Claimed
                                                } else {
                                                    ins.status
                                                },
                                                ..ins
                                            },
                                        ),
                                    },
                                )
                            }
                        } else {
                            Ok(
                                BondCoverage {
                                    covered: used as i128,
                                    bond: new_bond,
                                    stats: BondStats {
                                        total_used: (s.total_used + used) as i128,
                                        times_bond_used: (s.times_bond_used + 1) as u32,
                                        last_activity: now,
                                        ..s
                                    },
                                    insurance,
                                },
                            )
                        }
                    },
                }
            }
        },
    }
}

/// Use a bond to cover a slash, before the vouch stake itself is slashed.
/// Where the bond does not cover the whole slash and it is insured, the
/// insurance pays out the shortfall up to its remaining coverage.
pub fn apply_bond_coverage(
    now: u64,
    slash_amount: i128,
    bond: Option<VouchProtectionBond>,
    stats: Option<BondStats>,
    insurance: Option<BondInsuranceRecord>,
) -> (r: Result<BondCoverage, ContractError>)
    requires
        !bond_coverage_overflows(slash_amount, bond, stats, insurance),
    ensures
        r == bond_coverage_outcome(now, slash_amount, bond, stats, insurance),
{
    let mut bond = match bond {
        Some(b) => b,
        None => return Err(ContractError::InvalidAmount),
    };
    if bond.status == BondStatus::Released || bond.status == BondStatus::Exhausted {
        return Err(ContractError::InvalidAmount);
    }

    let available_bond = bond.bond_amount - bond.amount_used;
    let bond_used = if slash_amount <= available_bond {
        slash_amount
    } else {
        available_bond
    };

    bond.amount_used = match bond.amount_used.checked_add(bond_used) {
        Some(v) => v,
        None => return Err(ContractError::ArithmeticError),
    };
    if bond.amount_used >= bond.bond_amount {
        bond.status = BondStatus::Exhausted;
    } else {
        bond.status = BondStatus::PartiallyUsed;
    }

    let mut stats = match stats {
        Some(s) => s,
        None => return Err(ContractError::InvalidAmount),
    };
    stats.total_used = match stats.total_used.checked_add(bond_used) {
        Some(v) => v,
        None => return Err(ContractError::ArithmeticError),
    };
    stats.times_bond_used = stats.times_bond_used + 1;

    // Insurance covers the shortfall
    if bond.has_insurance && bond_used < slash_amount {
        if let Some(mut insurance_record) = insurance {
            if insurance_record.status == InsuranceStatus::Active {
                let shortfall = slash_amount - bond_used;
                let room = insurance_record.max_coverage - insurance_record.amount_claimed;
                let insurance_payout = if shortfall <= room {
                    shortfall
                } else {
                    room
                };

                if insurance_payout > 0 {
                    insurance_record.amount_claimed = match insurance_record.amount_claimed.checked_add(
                        insurance_payout,
                    ) {
                        Some(v) => v,
                        None => return Err(ContractError::ArithmeticError),
                    };
                    if insurance_record.amount_claimed >= insurance_record.max_coverage {
                        insurance_record.status = InsuranceStatus::Claimed;
                    }
                    stats.insurance_claims_paid = stats.insurance_claims_paid + 1;
                    stats.total_insurance_payout = match stats.total_insurance_payout.checked_add(
                        insurance_payout,
                    ) {
                        Some(v) => v,
                        None => return Err(ContractError::ArithmeticError),
                    };
                    stats.last_activity = now;
                    return Ok(
                        BondCoverage {
                            covered: bond_used + insurance_payout,
                            bond,
                            stats,
                            insurance: Some(insurance_record),
                        },
                    );
                }
            }
        }
    }

    stats.last_activity = now;
    Ok(BondCoverage { covered: bond_used, bond, stats, insurance })
}

/// The outcome of releasing a bond, on inputs where nothing overflows.
pub open spec fn bond_release_outcome(
    paused: bool,
    now: u64,
    bond: Option<VouchProtectionBond>,
    insurance: Option<BondInsuranceRecord>,
    stats: Option<BondStats>,
) -> Result<BondRelease, ContractError> {
    if paused {
        Err(ContractError::ContractPaused)
    } else if bond is None || bond->0.status == BondStatus::Released || (bond->0.has_insurance
        && insurance is None) || stats is None {
        Err(ContractError::InvalidAmount)
    } else {
        let b = bond->0;
        let s = stats->0;
        Ok(
            BondRelease {
                refund: (b.bond_amount - b.amount_used) as i128,
                bond: VouchProtectionBond {
                    status: BondStatus::Released,
                    released_at: Some(now),
                    ..b
                },
                insurance: if b.has_insurance && insurance->0.status == InsuranceStatus::Active {
                    Some(BondInsuranceRecord { status: InsuranceStatus::Released, ..insurance->0 })
                } else {
                    insurance
                },
                stats: BondStats {
                    active_bonds: if s.active_bonds == 0 {
                        0
                    } else {
                        (s.active_bonds - 1) as u32
                    },
                    last_activity: now,
                    ..s
                },
            },
        )
    }
}

/// Release a bond after the loan completes: the bond is marked released, an
/// active insurance on it too, and the unused amount is refunded.
pub fn release_bond(
    paused: bool,
    now: u64,
    bond: Option<VouchProtectionBond>,
    insurance: Option<BondInsuranceRecord>,
    stats: Option<BondStats>,
) -> (r: Result<BondRelease, ContractError>)
    requires
        !paused && bond is Some && bond->0.status != BondStatus::Released ==> fits_i128(
            bond->0.bond_amount - bond->0.amount_used,
        ),
    ensures
        r == bond_release_outcome(paused, now, bond, insurance, stats),
{
    if paused {
        return Err(ContractError::ContractPaused);
    }
    let mut bond = match bond {
        Some(b) => b,
        None => return Err(ContractError::InvalidAmount),
    };
    if bond.status == BondStatus::Released {
        return Err(ContractError::InvalidAmount);
    }

    let refund_amount = bond.bond_amount - bond.amount_used;

    bond.status = BondStatus::Released;
    bond.released_at = Some(now);

    let mut insurance = insurance;
    if bond.has_insurance {
        let mut record = match insurance {
            Some(i) => i,
            None => return Err(ContractError::InvalidAmount),
        };
        if record.status == InsuranceStatus::Active {
            record.status = InsuranceStatus::Released;
            insurance = Some(record);
        }
    }

    let mut stats = match stats {
        Some(s) => s,
        None => return Err(ContractError::InvalidAmount),
    };
    stats.active_bonds = stats.active_bonds.saturating_sub(1);
    stats.last_activity = now;

    Ok(BondRelease { refund: refund_amount, bond, insurance, stats })
}

/// The stored bond protection record.
pub fn get_bond(bond: Option<VouchProtectionBond>) -> (r: Result<VouchProtectionBond, ContractError>)
    ensures
        r == match bond {
            Some(b) => Ok::<VouchProtectionBond, ContractError>(b),
            None => Err(ContractError::InvalidAmount),
        },
{
    match bond {
        Some(b) => Ok(b),
        None => Err(ContractError::InvalidAmount),
    }
}

/// The stored bond insurance record.
pub fn get_bond_insurance(insurance: Option<BondInsuranceRecord>) -> (r: Result<
    BondInsuranceRecord,
    ContractError,
>)
    ensures
        r == match insurance {
            Some(i) => Ok::<BondInsuranceRecord, ContractError>(i),
            None => Err(ContractError::InvalidAmount),
        },
{
    match insurance {
        Some(i) => Ok(i),
        None => Err(ContractError::InvalidAmount),
    }
}

/// The stored bond statistics of a voucher.
pub fn get_bond_stats(stats: Option<BondStats>) -> (r: Result<BondStats, ContractError>)
    ensures
        r == match stats {
            Some(s) => Ok::<BondStats, ContractError>(s),
            None => Err(ContractError::InvalidAmount),
        },
{
    match stats {
        Some(s) => Ok(s),
        None => Err(ContractError::InvalidAmount),
    }
}

/// Share of the bonded amount that has been used, in basis points, at most 10000.
pub open spec fn utilization_bps(s: BondStats) -> u32 {
    let u = div_trunc(s.total_used * 10_000, s.total_bonded as int);
    (if u <= 10_000 {
        u
    } else {
        10_000
    }) as u32
}

/// Bond utilization rate of a voucher (share of the bonded amount used, in basis points).
pub fn get_bond_utilization_rate(stats: Option<BondStats>) -> (r: Result<u32, ContractError>)
    requires
        stats is Some && stats->0.total_bonded != 0 ==> fits_i128(stats->0.total_used * 10_000),
    ensures
        r == match stats {
            None => Err::<u32, ContractError>(ContractError::InvalidAmount),
            Some(s) => if s.total_bonded == 0 {
                Ok::<u32, ContractError>(0)
            } else {
                Ok(utilization_bps(s))
            },
        },
        stats is Some && stats->0.total_used >= 0 && stats->0.total_bonded > 0 ==> (r matches Ok(
            x,
        ) && x <= 10_000),
{
    let stats = get_bond_stats(stats)?;

    if stats.total_bonded == 0 {
        return Ok(0);
    }

    let used = stats.total_used * 10_000;
    let utilization_bps: i128 = match used.checked_div(stats.total_bonded) {
        Some(v) => v,
        None => {
            assert(false);
            0
        },
    };
    let capped = if utilization_bps <= 10_000 {
        utilization_bps
    } else {
        10_000
    };
    proof {
        if stats.total_used >= 0 && stats.total_bonded > 0 {
            vstd::arithmetic::div_mod::lemma_div_pos_is_pos(used as int, stats.total_bonded as int);
        }
    }
    Ok(#[verifier::truncate] (capped as u32))
}

// ---------------------------------------------------------------------------
// Properties of bonds
// ---------------------------------------------------------------------------

/// A bond whose used amount lies between zero and its amount.
pub open spec fn bond_well_formed(b: VouchProtectionBond) -> bool {
    0 <= b.amount_used <= b.bond_amount
}

/// An insurance whose claimed amount lies between zero and its coverage.
pub open spec fn insurance_well_formed(i: BondInsuranceRecord) -> bool {
    0 <= i.amount_claimed <= i.max_coverage
}

/// A bond that is accepted never exceeds half of the stake it protects.
pub proof fn lemma_bond_covers_at_most_half(protected_stake: i128, bond_amount: i128)
    requires
        fits_i128(protected_stake * MAX_BOND_COVERAGE_BPS),
        bond_request_valid(false, protected_stake, bond_amount),
    ensures
        2 * bond_amount <= protected_stake,
{
    let p = protected_stake as int;
    if p * 5000 < 0 {
        assert(max_bond(protected_stake) <= 0) by {
            vstd::arithmetic::div_mod::lemma_div_pos_is_pos(-(p * 5000), 10_000);
        }
    } else {
        vstd::arithmetic::div_mod::lemma_fundamental_div_mod(p * 5000, 10_000);
        assert(2 * ((p * 5000) / 10_000) <= p);
    }
}

/// Covering a slash of a non-negative amount keeps a well-formed bond and its
/// insurance well-formed: the bond never covers more than it holds, the
/// insurance never pays more than its coverage, and together they cover at
/// most the slash.
pub proof fn lemma_coverage_stays_within_bond(
    now: u64,
    slash_amount: i128,
    bond: VouchProtectionBond,
    stats: Option<BondStats>,
    insurance: Option<BondInsuranceRecord>,
)
    requires
        slash_amount >= 0,
        bond_well_formed(bond),
        insurance is Some ==> insurance_well_formed(insurance->0),
        bond_coverage_outcome(now, slash_amount, Some(bond), stats, insurance) is Ok,
    ensures
        ({
            let c = bond_coverage_outcome(now, slash_amount, Some(bond), stats, insurance)->Ok_0;
            &&& bond_well_formed(c.bond)
            &&& c.bond.amount_used >= bond.amount_used
            &&& 0 <= c.covered <= slash_amount
            &&& c.insurance is Some ==> insurance_well_formed(c.insurance->0)
        }),
{
}

/// Every amount a bond and its insurance cover is accounted for in the
/// voucher's statistics: what the bond covered adds to the total used, what
/// the insurance paid adds to the total payout, and each use is counted (on
/// the inputs `apply_bond_coverage` accepts).
pub proof fn lemma_coverage_recorded_in_stats(
    now: u64,
    slash_amount: i128,
    bond: Option<VouchProtectionBond>,
    stats: Option<BondStats>,
    insurance: Option<BondInsuranceRecord>,
)
    requires
        !bond_coverage_overflows(slash_amount, bond, stats, insurance),
        bond_coverage_outcome(now, slash_amount, bond, stats, insurance) is Ok,
    ensures
        ({
            let c = bond_coverage_outcome(now, slash_amount, bond, stats, insurance)->Ok_0;
            let s = stats->0;
            &&& stats is Some
            &&& c.covered == (c.stats.total_used - s.total_used) + (c.stats.total_insurance_payout
                - s.total_insurance_payout)
            &&& c.stats.times_bond_used == s.times_bond_used + 1
            &&& c.stats.last_activity == now
        }),
{
}

/// A bond that has been released cannot be released again.
pub proof fn lemma_release_is_final(
    now: u64,
    later: u64,
    bond: Option<VouchProtectionBond>,
    insurance: Option<BondInsuranceRecord>,
    stats: Option<BondStats>,
)
    requires
        bond_release_outcome(false, now, bond, insurance, stats) is Ok,
        bond is Some ==> fits_i128(bond->0.bond_amount - bond->0.amount_used),
    ensures
        ({
            let rel = bond_release_outcome(false, now, bond, insurance, stats)->Ok_0;
            &&& rel.refund + rel.bond.amount_used == rel.bond.bond_amount
            &&& bond_release_outcome(false, later, Some(rel.bond), rel.insurance, Some(rel.stats))
                == Err::<BondRelease, ContractError>(ContractError::InvalidAmount)
        }),
{
}

/// A released bond no longer covers slashes.
pub proof fn lemma_released_bond_covers_nothing(
    now: u64,
    later: u64,
    slash_amount: i128,
    bond: Option<VouchProtectionBond>,
    insurance: Option<BondInsuranceRecord>,
    stats: Option<BondStats>,
)
    requires
        bond_release_outcome(false, now, bond, insurance, stats) is Ok,
    ensures
        ({
            let rel = bond_release_outcome(false, now, bond, insurance, stats)->Ok_0;
            bond_coverage_outcome(later, slash_amount, Some(rel.bond), Some(rel.stats), rel.insurance)
                == Err::<BondCoverage, ContractError>(ContractError::InvalidAmount)
        }),
{
}

/// Insurance can be bought on a bond only once.
pub proof fn lemma_insurance_bought_once(
    now: u64,
    later: u64,
    loan_id: u64,
    voucher: AccountId,
    bond_amount: i128,
    other_amount: i128,
    bond: Option<VouchProtectionBond>,
    stats: Option<BondStats>,
)
    requires
        insurance_purchase_outcome(false, now, loan_id, voucher, bond_amount, bond, stats) is Ok,
    ensures
        ({
            let (_, b, s) = insurance_purchase_outcome(
                false,
                now,
                loan_id,
                voucher,
                bond_amount,
                bond,
                stats,
            )->Ok_0;
            insurance_purchase_outcome(false, later, loan_id, voucher, other_amount, Some(b), Some(s))
                == Err::<(BondInsuranceRecord, VouchProtectionBond, BondStats), ContractError>(
                ContractError::InvalidAmount,
            )
        }),
{
}

} // verus!
