//! A verified car-rental ledger: owners list cars at a daily price, renters
//! pay up front in a fungible token, the platform keeps a configurable
//! commission, and owners and admin withdraw their accrued balances.
//!
//! The ledger itself is a pure state machine over explicit state. The host
//! platform is expected to verify authorization of the acting identity before
//! each mutating call and to perform the [`types::TokenTransfer`] that the
//! funds-moving operations return.

pub mod contract;
pub mod laws;
pub mod storage;
pub mod types;
