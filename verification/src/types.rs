//! Plain data carried by the ledger: cars, rentals, errors, and the token
//! transfers that the host performs on the ledger's behalf.

use vstd::prelude::*;

verus! {

/// Whether a listed car is currently free or out with a renter.
#[derive(Clone, Copy, Debug, PartialEq, Eq, Structural)]
pub enum CarStatus {
    Available,
    Rented,
}

/// Typed failure of a ledger operation; every error is terminal for the call
/// and leaves the ledger unchanged.
#[derive(Clone, Copy, Debug, PartialEq, Eq, Structural)]
pub enum Error {
    ContractInitialized,
    ContractNotInitialized,
    CarNotFound,
    AdminTokenConflict,
    CarAlreadyExist,
    AmountMustBePositive,
    RentalNotFound,
    InsufficientBalance,
    BalanceNotAvailableForAmountRequested,
    RentalDurationCannotBeZero,
    SelfRentalNotAllowed,
    CarAlreadyRented,
    CarNotReturned,
}

/// A listed car: daily price, rental status, and the owner's accrued
/// earnings not yet paid out.
#[derive(Clone, Copy, Debug, PartialEq, Eq, Structural)]
pub struct Car {
    pub price_per_day: i128,
    pub car_status: CarStatus,
    pub available_to_withdraw: i128,
}

/// One rental agreement; kept (inactive) after the car is returned until a
/// later rental for the same pair overwrites it.
#[derive(Clone, Copy, Debug, PartialEq, Eq, Structural)]
pub struct Rental {
    pub total_days_to_rent: u32,
    pub amount: i128,
    pub commission: i128,
    pub is_active: bool,
}

/// A car record together with the owner identity that keys it.
#[derive(Clone, Copy, Debug, PartialEq, Eq, Structural)]
pub struct CarEntry {
    pub owner: u64,
    pub car: Car,
}

/// A rental record together with the (renter, owner) pair that keys it.
#[derive(Clone, Copy, Debug, PartialEq, Eq, Structural)]
pub struct RentalEntry {
    pub renter: u64,
    pub owner: u64,
    pub rental: Rental,
}

/// One side of a token movement: the contract's own account or an external
/// identity.
#[derive(Clone, Copy, Debug, PartialEq, Eq, Structural)]
pub enum Party {
    Contract,
    Account(u64),
}

/// A movement of the payment token that the host must carry out for the
/// operation that returned it to take full effect.
#[derive(Clone, Copy, Debug, PartialEq, Eq, Structural)]
pub struct TokenTransfer {
    pub from: Party,
    pub to: Party,
    pub amount: i128,
}

} // verus!
