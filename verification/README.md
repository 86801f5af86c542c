# quorum_credit

The rules of a vouch-based lending contract, written in Verus and proved
against their contracts:

- `economic_simulation`: a seeded Monte Carlo simulation of a loan portfolio
  and its risk metrics, and fixed stress scenarios;
- `bond_protection`: bonds that vouchers stake to protect a vouch, insurance
  on them, and how a slash is covered;
- `loan_acceleration`: cross-platform defaults and the acceleration of a
  borrower's loans;
- `pool_composability`: deposits into external pools, yield and portfolio
  allocation;
- `maturity`: the interest bonus a vouch earns as it ages;
- `audit`: the audit trail of vouch operations;
- `social`: borrower profiles, success stories and engagement scores.

Each function takes the records it reads (from contract storage) and the
current ledger time as plain values, and returns or updates the records to
store. Laws that span several functions are stated as public proof
functions beside them.

`app/` is the contract around the library: storage, ledger time, events and
authorisation through `soroban-sdk`, with copies of the record types that
carry the contract's serialisation.
