//! Custodial vault accounting with an idempotent deposit ledger, and a
//! staking pool whose rewards accrue over a history of rate epochs.
//!
//! Every operation is a verified state transition on plain values: the
//! caller supplies the accounts, the signer and the ledger time, performs
//! the token movements an operation returns, and commits the new state
//! only when the operation succeeds.
pub mod address;
pub mod reward;
pub mod staking;
pub mod vault;
