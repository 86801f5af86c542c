//! Verified core of the QuorumCredit lending features: bond protection for
//! vouchers, vouch audit trails, maturity bonuses, cross-default loan
//! acceleration, external pool composability, borrower social features and
//! the Monte Carlo portfolio simulation.
//!
//! Every function here works on plain values: the ledger time, the records
//! read from contract storage and the call's arguments go in; the records to
//! store and the call's result come out.

pub mod common;
pub mod economic_simulation;
pub mod bond_protection;
pub mod loan_acceleration;
pub mod pool_composability;
pub mod maturity;
pub mod audit;
pub mod social;
