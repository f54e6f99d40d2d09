//! The rental ledger itself: its state, its well-formedness and solvency
//! predicates, and the public operations.

use crate::types::{Car, CarEntry, CarStatus, Error, Party, Rental, RentalEntry, TokenTransfer};
use vstd::prelude::*;

verus! {

/// The whole durable state of the rental marketplace.
///
/// Identities (admin, token, owners, renters) are opaque principals; the
/// ledger only compares them for equality, so they are carried as plain
/// `u64` values. The host platform authenticates them before each call.
pub struct RentACarContract {
    /// Admin identity; `None` until construction succeeds.
    pub admin: Option<u64>,
    /// Payment-token identity; set together with the admin.
    pub token: Option<u64>,
    /// Commission percentage applied to every rental; defaults to 0.
    pub admin_commission: i128,
    /// Total funds held by the contract.
    pub contract_balance: i128,
    /// Funds earmarked for the admin, not yet paid out.
    pub admin_balance: i128,
    /// Car records, at most one per owner identity.
    pub cars: Vec<CarEntry>,
    /// Rental records, at most one per (renter, owner) pair.
    pub rentals: Vec<RentalEntry>,
}

impl RentACarContract {
    /// A car record exists for `owner`.
    pub open spec fn cars_has(self, owner: u64) -> bool {
        exists|i: int| 0 <= i < self.cars@.len() && self.cars@[i].owner == owner
    }

    /// The car record keyed by `owner` (meaningful only when `cars_has`).
    pub open spec fn car_of(self, owner: u64) -> Car {
        self.cars@[choose|i: int| 0 <= i < self.cars@.len() && self.cars@[i].owner == owner].car
    }

    /// A rental record exists for the (renter, owner) pair.
    pub open spec fn rental_has(self, renter: u64, owner: u64) -> bool {
        exists|i: int|
            0 <= i < self.rentals@.len() && self.rentals@[i].renter == renter
                && self.rentals@[i].owner == owner
    }

    /// The rental record keyed by the pair (meaningful only when `rental_has`).
    pub open spec fn rental_of(self, renter: u64, owner: u64) -> Rental {
        self.rentals@[choose|i: int|
            0 <= i < self.rentals@.len() && self.rentals@[i].renter == renter
                && self.rentals@[i].owner == owner].rental
    }

    /// An active rental exists for the pair.
    pub open spec fn rental_active(self, renter: u64, owner: u64) -> bool {
        self.rental_has(renter, owner) && self.rental_of(renter, owner).is_active
    }

    /// No two car records share an owner.
    pub open spec fn cars_unique(self) -> bool {
        forall|i: int, j: int|
            0 <= i < self.cars@.len() && 0 <= j < self.cars@.len() && i != j
                ==> self.cars@[i].owner != self.cars@[j].owner
    }

    /// No two rental records share a (renter, owner) pair.
    pub open spec fn rentals_unique(self) -> bool {
        forall|i: int, j: int|
            0 <= i < self.rentals@.len() && 0 <= j < self.rentals@.len() && i != j
                ==> !(self.rentals@[i].renter == self.rentals@[j].renter
                    && self.rentals@[i].owner == self.rentals@[j].owner)
    }

    /// Structural well-formedness, established at creation and preserved by
    /// every operation: unique keys, a positive daily price on every listed
    /// car, non-negative commission percentage and balances, and an admin
    /// identity distinct from the token identity once construction ran.
    pub open spec fn wf(self) -> bool {
        &&& self.cars_unique()
        &&& self.rentals_unique()
        &&& forall|i: int|
            0 <= i < self.cars@.len() ==> self.cars@[i].car.price_per_day > 0
        &&& self.admin_commission >= 0
        &&& self.admin_balance >= 0
        &&& self.contract_balance >= 0
        &&& self.admin.is_some() == self.token.is_some()
        &&& self.admin.is_some() ==> self.admin != self.token
    }

    /// The accrued earnings of all listed cars, summed.
    pub open spec fn sum_avail(s: Seq<CarEntry>) -> int
        decreases s.len(),
    {
        if s.len() == 0 {
            0
        } else {
            s[0].car.available_to_withdraw + Self::sum_avail(s.drop_first())
        }
    }

    /// Solvency: every owner's withdrawable balance is non-negative, and the
    /// treasury covers the admin's earmark plus all owners' withdrawable
    /// balances. Holds after any sequence of operations whose rentals were
    /// made with a commission percentage of at most 100.
    pub open spec fn solvent(self) -> bool {
        &&& forall|o: u64|
            self.cars_has(o) ==> self.car_of(o).available_to_withdraw >= 0
        &&& self.admin_balance + Self::sum_avail(self.cars@) <= self.contract_balance
    }

    /// Exclusivity: every active rental points at a listed car that is
    /// marked Rented, and no car has two simultaneously active rentals.
    /// Holds after any sequence of operations that never removed a car while
    /// it was rented.
    pub open spec fn rentals_exclusive(self) -> bool {
        &&& forall|r: u64, o: u64|
            self.rental_active(r, o) ==> self.cars_has(o) && self.car_of(o).car_status
                == CarStatus::Rented
        &&& forall|r1: u64, r2: u64, o: u64|
            self.rental_active(r1, o) && self.rental_active(r2, o) ==> r1 == r2
    }

    /// The commission owed on a rental of total price `amount` at percentage
    /// `pct`: the floor of `amount * pct / 100`.
    pub open spec fn commission_of(amount: int, pct: int) -> int {
        amount * pct / 100
    }

    /// All preconditions of a successful `rental` call over the current state.
    pub open spec fn rental_allowed(self, renter: u64, owner: u64, days: u32) -> bool {
        &&& days != 0
        &&& renter != owner
        &&& self.cars_has(owner)
        &&& self.car_of(owner).car_status == CarStatus::Available
    }

    /// The total price of renting `owner`'s car for `days` days.
    pub open spec fn rental_amount(self, owner: u64, days: u32) -> int {
        self.car_of(owner).price_per_day * (days as int)
    }

    /// The commission the admin earns on such a rental at the current
    /// percentage.
    pub open spec fn rental_commission(self, owner: u64, days: u32) -> int {
        Self::commission_of(self.rental_amount(owner, days), self.admin_commission as int)
    }
}

impl RentACarContract {
    /// A fresh, unconstructed ledger: no admin, no token, no records, all
    /// balances zero.
    pub fn new() -> (c: Self)
        ensures
            c.wf(),
            c.solvent(),
            c.rentals_exclusive(),
            c.admin.is_none(),
            c.token.is_none(),
            c.admin_commission == 0,
            c.contract_balance == 0,
            c.admin_balance == 0,
            c.cars@.len() == 0,
            c.rentals@.len() == 0,
    {
        let c = RentACarContract {
            admin: None,
            token: None,
            admin_commission: 0,
            contract_balance: 0,
            admin_balance: 0,
            cars: Vec::new(),
            rentals: Vec::new(),
        };
        proof {
            assert(RentACarContract::sum_avail(c.cars@) == 0);
        }
        c
    }

    /// One-time construction: records the admin and payment-token
    /// identities. The host performs this exactly once at deployment, with no
    /// authorization check.
    pub fn __constructor(&mut self, admin: u64, token: u64) -> (r: Result<(), Error>)
        requires
            old(self).wf(),
        ensures
            final(self).wf(),
            admin == token ==> r == Err::<(), Error>(Error::AdminTokenConflict),
            admin != token && old(self).admin.is_some() ==> r == Err::<(), Error>(
                Error::ContractInitialized,
            ),
            admin != token && old(self).admin.is_none() ==> r == Ok::<(), Error>(()) && final(self).admin == Some(admin) && final(self).token == Some(token),
            final(self).admin_commission == old(self).admin_commission,
            final(self).contract_balance == old(self).contract_balance,
            final(self).admin_balance == old(self).admin_balance,
            final(self).cars == old(self).cars,
            final(self).rentals == old(self).rentals,
            r is Err ==> *final(self) == *old(self),
            old(self).solvent() ==> final(self).solvent(),
            old(self).rentals_exclusive() ==> final(self).rentals_exclusive(),
    {
        if admin == token {
            return Err(Error::AdminTokenConflict);
        }
        if crate::storage::has_admin(self) {
            return Err(Error::ContractInitialized);
        }
        crate::storage::write_admin(self, admin);
        crate::storage::write_token(self, token);
        proof {
            crate::laws::lemma_car_view_preserved(*old(self), *self);
            crate::laws::lemma_rental_view_preserved(*old(self), *self);
            if old(self).rentals_exclusive() {
                crate::laws::lemma_exclusive_preserved(*old(self), *self);
            }
        }
        Ok(())
    }

    /// Overwrites the commission percentage. The host must have verified the
    /// admin's authorization.
    pub fn set_admin_commission(&mut self, commission: i128) -> (r: Result<(), Error>)
        requires
            old(self).wf(),
            old(self).admin.is_some(),
        ensures
            final(self).wf(),
            commission < 0 ==> r == Err::<(), Error>(Error::AmountMustBePositive) && *final(self)
                == *old(self),
            commission >= 0 ==> r == Ok::<(), Error>(()) && final(self).admin_commission
                == commission,
            final(self).admin == old(self).admin,
            final(self).token == old(self).token,
            final(self).contract_balance == old(self).contract_balance,
            final(self).admin_balance == old(self).admin_balance,
            final(self).cars == old(self).cars,
            final(self).rentals == old(self).rentals,
            old(self).solvent() ==> final(self).solvent(),
            old(self).rentals_exclusive() ==> final(self).rentals_exclusive(),
    {
        let _admin = crate::storage::read_admin(self);
        if commission < 0 {
            return Err(Error::AmountMustBePositive);
        }
        crate::storage::write_admin_commission(self, commission);
        proof {
            crate::laws::lemma_car_view_preserved(*old(self), *self);
            crate::laws::lemma_rental_view_preserved(*old(self), *self);
            if old(self).rentals_exclusive() {
                crate::laws::lemma_exclusive_preserved(*old(self), *self);
            }
        }
        Ok(())
    }

    /// The commission percentage; 0 when never set. Pure read, mutates
    /// nothing, needs no authorization.
    pub fn get_admin_commission(&self) -> (r: i128)
        ensures
            r == self.admin_commission,
    {
        crate::storage::read_admin_commission(self)
    }

    /// Lists a car for `owner` at the given daily price. The host must have
    /// verified the admin's authorization: the admin onboards cars.
    pub fn add_car(&mut self, owner: u64, price_per_day: i128) -> (r: Result<(), Error>)
        requires
            old(self).wf(),
            old(self).admin.is_some(),
        ensures
            final(self).wf(),
            price_per_day <= 0 ==> r == Err::<(), Error>(Error::AmountMustBePositive),
            price_per_day > 0 && old(self).cars_has(owner) ==> r == Err::<(), Error>(
                Error::CarAlreadyExist,
            ),
            price_per_day > 0 && !old(self).cars_has(owner) ==> r == Ok::<(), Error>(()) && final(self).cars_has(owner) && final(self).car_of(owner) == (Car {
                price_per_day,
                car_status: CarStatus::Available,
                available_to_withdraw: 0,
            }),
            forall|o2: u64| o2 != owner ==> final(self).cars_has(o2) == old(self).cars_has(o2),
            forall|o2: u64|
                o2 != owner && old(self).cars_has(o2) ==> final(self).car_of(o2) == old(self).car_of(o2),
            r is Err ==> *final(self) == *old(self),
            final(self).admin == old(self).admin,
            final(self).token == old(self).token,
            final(self).admin_commission == old(self).admin_commission,
            final(self).contract_balance == old(self).contract_balance,
            final(self).admin_balance == old(self).admin_balance,
            final(self).rentals == old(self).rentals,
            old(self).solvent() ==> final(self).solvent(),
            old(self).rentals_exclusive() ==> final(self).rentals_exclusive(),
    {
        let _admin = crate::storage::read_admin(self);
        if price_per_day <= 0 {
            return Err(Error::AmountMustBePositive);
        }
        if crate::storage::has_car(self, owner) {
            return Err(Error::CarAlreadyExist);
        }
        let car = Car { price_per_day, car_status: CarStatus::Available, available_to_withdraw: 0 };
        crate::storage::write_car(self, owner, &car);
        proof {
            crate::laws::lemma_rental_view_preserved(*old(self), *self);
            if old(self).rentals_exclusive() {
                assert forall|r: u64, o: u64|
                    self.rental_active(r, o) implies self.cars_has(o) == old(self).cars_has(o)
                    && self.car_of(o) == old(self).car_of(o) by {
                    assert(old(self).rental_active(r, o));
                    assert(o != owner);
                }
                crate::laws::lemma_exclusive_preserved(*old(self), *self);
            }
        }
        Ok(())
    }

    /// The status of `owner`'s car. Pure read, mutates nothing, needs no
    /// authorization.
    pub fn get_car_status(&self, owner: u64) -> (r: Result<CarStatus, Error>)
        requires
            self.wf(),
        ensures
            !self.cars_has(owner) ==> r == Err::<CarStatus, Error>(Error::CarNotFound),
            self.cars_has(owner) ==> r == Ok::<CarStatus, Error>(self.car_of(owner).car_status),
    {
        if !crate::storage::has_car(self, owner) {
            return Err(Error::CarNotFound);
        }
        let car = crate::storage::read_car(self, owner);
        Ok(car.car_status)
    }

    /// Rents `owner`'s car to `renter` for `total_days_to_rent` days: charges
    /// the total price up front, credits the owner's share to the car,
    /// earmarks the commission for the admin, and hands back the transfer
    /// (renter to contract) the host must perform. The host must have
    /// verified the renter's authorization.
    pub fn rental(&mut self, renter: u64, owner: u64, total_days_to_rent: u32) -> (r: Result<
        TokenTransfer,
        Error,
    >)
        requires
            old(self).wf(),
            old(self).admin.is_some(),
            old(self).rental_allowed(renter, owner, total_days_to_rent) ==> ({
                let total = old(self).rental_amount(owner, total_days_to_rent);
                let c = old(self).rental_commission(owner, total_days_to_rent);
                &&& total <= i128::MAX
                &&& total * (old(self).admin_commission as int) <= i128::MAX
                &&& old(self).contract_balance + total <= i128::MAX
                &&& old(self).admin_balance + c <= i128::MAX
                &&& i128::MIN <= old(self).car_of(owner).available_to_withdraw + (total - c)
                &&& old(self).car_of(owner).available_to_withdraw + (total - c) <= i128::MAX
            }),
        ensures
            final(self).wf(),
            total_days_to_rent == 0 ==> r == Err::<TokenTransfer, Error>(
                Error::RentalDurationCannotBeZero,
            ),
            total_days_to_rent != 0 && renter == owner ==> r == Err::<TokenTransfer, Error>(
                Error::SelfRentalNotAllowed,
            ),
            total_days_to_rent != 0 && renter != owner && !old(self).cars_has(owner) ==> r
                == Err::<TokenTransfer, Error>(Error::CarNotFound),
            total_days_to_rent != 0 && renter != owner && old(self).cars_has(owner) && old(self).car_of(owner).car_status != CarStatus::Available ==> r == Err::<TokenTransfer, Error>(
                Error::CarAlreadyRented,
            ),
            r is Err ==> *final(self) == *old(self),
            old(self).rental_allowed(renter, owner, total_days_to_rent) ==> ({
                let total = old(self).rental_amount(owner, total_days_to_rent);
                let c = old(self).rental_commission(owner, total_days_to_rent);
                &&& r == Ok::<TokenTransfer, Error>(TokenTransfer {
                    from: Party::Account(renter),
                    to: Party::Contract,
                    amount: total as i128,
                })
                &&& final(self).cars_has(owner)
                &&& final(self).car_of(owner) == (Car {
                    price_per_day: old(self).car_of(owner).price_per_day,
                    car_status: CarStatus::Rented,
                    available_to_withdraw: (old(self).car_of(owner).available_to_withdraw + total
                        - c) as i128,
                })
                &&& final(self).rental_has(renter, owner)
                &&& final(self).rental_of(renter, owner) == (Rental {
                    total_days_to_rent,
                    amount: total as i128,
                    commission: c as i128,
                    is_active: true,
                })
                &&& final(self).contract_balance == old(self).contract_balance + total
                &&& final(self).admin_balance == old(self).admin_balance + c
            }),
            forall|o2: u64| o2 != owner ==> final(self).cars_has(o2) == old(self).cars_has(o2),
            forall|o2: u64|
                o2 != owner && old(self).cars_has(o2) ==> final(self).car_of(o2) == old(self).car_of(o2),
            forall|r2: u64, o2: u64|
                !(r2 == renter && o2 == owner) ==> final(self).rental_has(r2, o2) == old(self).rental_has(r2, o2),
            forall|r2: u64, o2: u64|
                !(r2 == renter && o2 == owner) && old(self).rental_has(r2, o2) ==> final(self).rental_of(r2, o2) == old(self).rental_of(r2, o2),
            final(self).admin == old(self).admin,
            final(self).token == old(self).token,
            final(self).admin_commission == old(self).admin_commission,
            old(self).solvent() && old(self).admin_commission <= 100 ==> final(self).solvent(),
            old(self).rentals_exclusive() ==> final(self).rentals_exclusive(),
    {
        if total_days_to_rent == 0 {
            return Err(Error::RentalDurationCannotBeZero);
        }
        if renter == owner {
            return Err(Error::SelfRentalNotAllowed);
        }
        if !crate::storage::has_car(self, owner) {
            return Err(Error::CarNotFound);
        }
        let mut car = crate::storage::read_car(self, owner);
        if car.car_status != CarStatus::Available {
            return Err(Error::CarAlreadyRented);
        }
        proof {
            vstd::arithmetic::mul::lemma_mul_nonnegative(
                car.price_per_day as int,
                total_days_to_rent as int,
            );
        }
        let total_amount = car.price_per_day * (total_days_to_rent as i128);
        let pct = crate::storage::read_admin_commission(self);
        proof {
            vstd::arithmetic::mul::lemma_mul_nonnegative(total_amount as int, pct as int);
        }
        let commission = (total_amount * pct) / 100;
        proof {
            vstd::arithmetic::div_mod::lemma_div_pos_is_pos(total_amount as int * pct as int, 100);
            vstd::arithmetic::div_mod::lemma_div_is_ordered(
                total_amount as int * pct as int,
                i128::MAX as int,
                100,
            );
        }
        let owner_amount = total_amount - commission;
        car.car_status = CarStatus::Rented;
        car.available_to_withdraw = car.available_to_withdraw + owner_amount;
        let rental_rec = Rental {
            total_days_to_rent,
            amount: total_amount,
            commission,
            is_active: true,
        };
        let cb = crate::storage::read_contract_balance(self) + total_amount;
        let ab = crate::storage::read_admin_balance(self) + commission;
        crate::storage::write_contract_balance(self, cb);
        crate::storage::write_admin_balance(self, ab);
        proof {
            crate::laws::lemma_car_view_preserved(*old(self), *self);
            crate::laws::lemma_rental_view_preserved(*old(self), *self);
        }
        let ghost mid = *self;
        crate::storage::write_car(self, owner, &car);
        let ghost mid2 = *self;
        crate::storage::write_rental(self, renter, owner, &rental_rec);
        proof {
            crate::laws::lemma_car_view_preserved(mid2, *self);
            crate::laws::lemma_rental_view_preserved(*old(self), mid2);
            if old(self).solvent() && old(self).admin_commission <= 100 {
                vstd::arithmetic::mul::lemma_mul_inequality(
                    pct as int,
                    100,
                    total_amount as int,
                );
                vstd::arithmetic::div_mod::lemma_div_is_ordered(
                    total_amount as int * pct as int,
                    total_amount as int * 100,
                    100,
                );
                vstd::arithmetic::div_mod::lemma_div_multiples_vanish(total_amount as int, 100);
                assert(commission <= total_amount);
                assert forall|o: u64|
                    self.cars_has(o) implies self.car_of(o).available_to_withdraw >= 0 by {
                    if o != owner {
                        assert(old(self).cars_has(o));
                        assert(self.car_of(o) == old(self).car_of(o));
                    }
                }
            }
            if old(self).rentals_exclusive() {
                assert forall|r: u64, o: u64|
                    self.rental_active(r, o) implies self.cars_has(o) && self.car_of(
                        o,
                    ).car_status == CarStatus::Rented by {
                    if !(r == renter && o == owner) {
                        assert(self.rental_of(r, o) == old(self).rental_of(r, o));
                        assert(old(self).rental_active(r, o));
                        assert(o != owner);
                    }
                }
                assert forall|r1: u64, r2: u64, o: u64|
                    self.rental_active(r1, o) && self.rental_active(r2, o) implies r1 == r2 by {
                    if o == owner {
                        if r1 != renter {
                            assert(old(self).rental_active(r1, owner));
                            assert(false);
                        }
                        if r2 != renter {
                            assert(old(self).rental_active(r2, owner));
                            assert(false);
                        }
                    } else {
                        assert(old(self).rental_active(r1, o));
                        assert(old(self).rental_active(r2, o));
                    }
                }
            }
        }
        Ok(TokenTransfer { from: Party::Account(renter), to: Party::Contract, amount: total_amount })
    }

    /// Marks the pair's active rental as finished and makes the car
    /// available again. Balances are untouched: they are settled by the
    /// payout operations. The host must have verified the renter's
    /// authorization.
    pub fn return_car(&mut self, renter: u64, owner: u64) -> (r: Result<(), Error>)
        requires
            old(self).wf(),
            old(self).rental_active(renter, owner) ==> old(self).cars_has(owner),
        ensures
            final(self).wf(),
            !old(self).rental_active(renter, owner) ==> r == Err::<(), Error>(Error::RentalNotFound)
                && *final(self) == *old(self),
            old(self).rental_active(renter, owner) ==> ({
                &&& r == Ok::<(), Error>(())
                &&& final(self).cars_has(owner)
                &&& final(self).car_of(owner) == (Car {
                    price_per_day: old(self).car_of(owner).price_per_day,
                    car_status: CarStatus::Available,
                    available_to_withdraw: old(self).car_of(owner).available_to_withdraw,
                })
                &&& final(self).rental_has(renter, owner)
                &&& final(self).rental_of(renter, owner) == (Rental {
                    total_days_to_rent: old(self).rental_of(renter, owner).total_days_to_rent,
                    amount: old(self).rental_of(renter, owner).amount,
                    commission: old(self).rental_of(renter, owner).commission,
                    is_active: false,
                })
            }),
            forall|o2: u64| o2 != owner ==> final(self).cars_has(o2) == old(self).cars_has(o2),
            forall|o2: u64|
                o2 != owner && old(self).cars_has(o2) ==> final(self).car_of(o2) == old(self).car_of(
                    o2,
                ),
            forall|r2: u64, o2: u64|
                !(r2 == renter && o2 == owner) ==> final(self).rental_has(r2, o2) == old(self).rental_has(
                    r2,
                    o2,
                ),
            forall|r2: u64, o2: u64|
                !(r2 == renter && o2 == owner) && old(self).rental_has(r2, o2) ==> final(self).rental_of(
                    r2,
                    o2,
                ) == old(self).rental_of(r2, o2),
            final(self).admin == old(self).admin,
            final(self).token == old(self).token,
            final(self).admin_commission == old(self).admin_commission,
            final(self).contract_balance == old(self).contract_balance,
            final(self).admin_balance == old(self).admin_balance,
            old(self).solvent() ==> final(self).solvent(),
            old(self).rentals_exclusive() ==> final(self).rentals_exclusive(),
    {
        if !crate::storage::has_rental(self, renter, owner) {
            return Err(Error::RentalNotFound);
        }
        let rental_rec = crate::storage::read_rental(self, renter, owner);
        if !rental_rec.is_active {
            return Err(Error::RentalNotFound);
        }
        let mut car = crate::storage::read_car(self, owner);
        car.car_status = CarStatus::Available;
        let mut updated_rental = rental_rec;
        updated_rental.is_active = false;
        let ghost mid = *self;
        crate::storage::write_car(self, owner, &car);
        let ghost mid2 = *self;
        crate::storage::write_rental(self, renter, owner, &updated_rental);
        proof {
            crate::laws::lemma_car_view_preserved(mid2, *self);
            crate::laws::lemma_rental_view_preserved(mid, mid2);
            if old(self).solvent() {
                assert forall|o: u64|
                    self.cars_has(o) implies self.car_of(o).available_to_withdraw >= 0 by {
                    if o != owner {
                        assert(old(self).cars_has(o));
                        assert(self.car_of(o) == old(self).car_of(o));
                    }
                }
            }
            if old(self).rentals_exclusive() {
                assert forall|r: u64, o: u64|
                    self.rental_active(r, o) implies old(self).rental_active(r, o) by {
                    if r == renter && o == owner {
                        assert(!self.rental_of(renter, owner).is_active);
                        assert(false);
                    } else {
                        assert(self.rental_of(r, o) == old(self).rental_of(r, o));
                    }
                }
                assert forall|r: u64, o: u64|
                    self.rental_active(r, o) implies self.cars_has(o) == old(self).cars_has(o)
                    && self.car_of(o) == old(self).car_of(o) by {
                    assert(old(self).rental_active(r, o));
                    if o == owner {
                        assert(old(self).rental_active(renter, owner));
                        assert(r == renter);
                        assert(!self.rental_of(renter, owner).is_active);
                        assert(false);
                    }
                }
                crate::laws::lemma_exclusive_preserved(*old(self), *self);
            }
        }
        Ok(())
    }

    /// Deletes `owner`'s car record unconditionally, whether or not it is
    /// rented or still carries a withdrawable balance. The host must have
    /// verified the admin's authorization.
    pub fn remove_car(&mut self, owner: u64) -> (r: Result<(), Error>)
        requires
            old(self).wf(),
            old(self).admin.is_some(),
        ensures
            final(self).wf(),
            !old(self).cars_has(owner) ==> r == Err::<(), Error>(Error::CarNotFound) && *final(self)
                == *old(self),
            old(self).cars_has(owner) ==> r == Ok::<(), Error>(()) && !final(self).cars_has(owner),
            forall|o2: u64| o2 != owner ==> final(self).cars_has(o2) == old(self).cars_has(o2),
            forall|o2: u64|
                o2 != owner && old(self).cars_has(o2) ==> final(self).car_of(o2) == old(self).car_of(
                    o2,
                ),
            final(self).admin == old(self).admin,
            final(self).token == old(self).token,
            final(self).admin_commission == old(self).admin_commission,
            final(self).contract_balance == old(self).contract_balance,
            final(self).admin_balance == old(self).admin_balance,
            final(self).rentals == old(self).rentals,
            old(self).solvent() ==> final(self).solvent(),
            old(self).rentals_exclusive() && (old(self).cars_has(owner) ==> old(self).car_of(
                owner,
            ).car_status == CarStatus::Available) ==> final(self).rentals_exclusive(),
    {
        let _admin = crate::storage::read_admin(self);
        if !crate::storage::has_car(self, owner) {
            return Err(Error::CarNotFound);
        }
        crate::storage::remove_car(self, owner);
        proof {
            if old(self).solvent() {
                assert forall|o: u64|
                    self.cars_has(o) implies self.car_of(o).available_to_withdraw >= 0 by {
                    assert(o != owner);
                    assert(old(self).cars_has(o));
                    assert(self.car_of(o) == old(self).car_of(o));
                }
            }
            crate::laws::lemma_rental_view_preserved(*old(self), *self);
            if old(self).rentals_exclusive() && old(self).car_of(owner).car_status
                == CarStatus::Available {
                assert forall|r: u64, o: u64|
                    self.rental_active(r, o) implies self.cars_has(o) == old(self).cars_has(o)
                    && self.car_of(o) == old(self).car_of(o) by {
                    assert(old(self).rental_active(r, o));
                    assert(o != owner);
                }
                crate::laws::lemma_exclusive_preserved(*old(self), *self);
            }
        }
        Ok(())
    }

    /// Pays accrued earnings out to `owner`, decrementing both the car's
    /// withdrawable balance and the treasury, and hands back the transfer
    /// (contract to owner) the host must perform. Only allowed while the car
    /// is not rented. The host must have verified the owner's authorization.
    pub fn payout_owner(&mut self, owner: u64, amount: i128) -> (r: Result<TokenTransfer, Error>)
        requires
            old(self).wf(),
            old(self).admin.is_some(),
        ensures
            final(self).wf(),
            amount <= 0 ==> r == Err::<TokenTransfer, Error>(Error::AmountMustBePositive),
            amount > 0 && !old(self).cars_has(owner) ==> r == Err::<TokenTransfer, Error>(
                Error::CarNotFound,
            ),
            amount > 0 && old(self).cars_has(owner) && old(self).car_of(owner).car_status
                == CarStatus::Rented ==> r == Err::<TokenTransfer, Error>(Error::CarNotReturned),
            amount > 0 && old(self).cars_has(owner) && old(self).car_of(owner).car_status
                != CarStatus::Rented && amount > old(self).car_of(owner).available_to_withdraw ==> r
                == Err::<TokenTransfer, Error>(Error::InsufficientBalance),
            amount > 0 && old(self).cars_has(owner) && old(self).car_of(owner).car_status
                != CarStatus::Rented && amount <= old(self).car_of(owner).available_to_withdraw
                && amount > old(self).contract_balance ==> r == Err::<TokenTransfer, Error>(
                Error::BalanceNotAvailableForAmountRequested,
            ),
            r is Err ==> *final(self) == *old(self),
            amount > 0 && old(self).cars_has(owner) && old(self).car_of(owner).car_status
                != CarStatus::Rented && amount <= old(self).car_of(owner).available_to_withdraw
                && amount <= old(self).contract_balance ==> ({
                &&& r == Ok::<TokenTransfer, Error>(TokenTransfer {
                    from: Party::Contract,
                    to: Party::Account(owner),
                    amount,
                })
                &&& final(self).cars_has(owner)
                &&& final(self).car_of(owner) == (Car {
                    price_per_day: old(self).car_of(owner).price_per_day,
                    car_status: old(self).car_of(owner).car_status,
                    available_to_withdraw: (old(self).car_of(owner).available_to_withdraw
                        - amount) as i128,
                })
                &&& final(self).contract_balance == old(self).contract_balance - amount
            }),
            forall|o2: u64| o2 != owner ==> final(self).cars_has(o2) == old(self).cars_has(o2),
            forall|o2: u64|
                o2 != owner && old(self).cars_has(o2) ==> final(self).car_of(o2) == old(self).car_of(
                    o2,
                ),
            final(self).admin == old(self).admin,
            final(self).token == old(self).token,
            final(self).admin_commission == old(self).admin_commission,
            final(self).admin_balance == old(self).admin_balance,
            final(self).rentals == old(self).rentals,
            old(self).solvent() ==> final(self).solvent(),
            old(self).rentals_exclusive() ==> final(self).rentals_exclusive(),
    {
        if amount <= 0 {
            return Err(Error::AmountMustBePositive);
        }
        if !crate::storage::has_car(self, owner) {
            return Err(Error::CarNotFound);
        }
        let mut car = crate::storage::read_car(self, owner);
        if car.car_status == CarStatus::Rented {
            return Err(Error::CarNotReturned);
        }
        if amount > car.available_to_withdraw {
            return Err(Error::InsufficientBalance);
        }
        let contract_balance = crate::storage::read_contract_balance(self);
        if amount > contract_balance {
            return Err(Error::BalanceNotAvailableForAmountRequested);
        }
        car.available_to_withdraw = car.available_to_withdraw - amount;
        let ghost mid = *self;
        crate::storage::write_car(self, owner, &car);
        let ghost mid2 = *self;
        crate::storage::write_contract_balance(self, contract_balance - amount);
        proof {
            crate::laws::lemma_car_view_preserved(mid2, *self);
            crate::laws::lemma_rental_view_preserved(*old(self), *self);
            if old(self).solvent() {
                assert forall|o: u64|
                    self.cars_has(o) implies self.car_of(o).available_to_withdraw >= 0 by {
                    if o != owner {
                        assert(old(self).cars_has(o));
                        assert(self.car_of(o) == old(self).car_of(o));
                    }
                }
            }
            if old(self).rentals_exclusive() {
                assert forall|r: u64, o: u64|
                    self.rental_active(r, o) implies self.cars_has(o) == old(self).cars_has(o)
                    && self.car_of(o) == old(self).car_of(o) by {
                    assert(old(self).rental_active(r, o));
                    assert(o != owner);
                }
                crate::laws::lemma_exclusive_preserved(*old(self), *self);
            }
        }
        Ok(TokenTransfer { from: Party::Contract, to: Party::Account(owner), amount })
    }

    /// Pays earmarked commission out to the admin, decrementing both the
    /// admin's earmark and the treasury, and hands back the transfer
    /// (contract to admin) the host must perform. The host must have
    /// verified the admin's authorization.
    pub fn payout_admin(&mut self, amount: i128) -> (r: Result<TokenTransfer, Error>)
        requires
            old(self).wf(),
            old(self).admin.is_some(),
        ensures
            final(self).wf(),
            amount <= 0 ==> r == Err::<TokenTransfer, Error>(Error::AmountMustBePositive),
            amount > 0 && amount > old(self).admin_balance ==> r == Err::<TokenTransfer, Error>(
                Error::InsufficientBalance,
            ),
            amount > 0 && amount <= old(self).admin_balance && amount > old(self).contract_balance
                ==> r == Err::<TokenTransfer, Error>(Error::BalanceNotAvailableForAmountRequested),
            r is Err ==> *final(self) == *old(self),
            amount > 0 && amount <= old(self).admin_balance && amount <= old(self).contract_balance
                ==> ({
                &&& r == Ok::<TokenTransfer, Error>(TokenTransfer {
                    from: Party::Contract,
                    to: Party::Account(old(self).admin.unwrap()),
                    amount,
                })
                &&& final(self).admin_balance == old(self).admin_balance - amount
                &&& final(self).contract_balance == old(self).contract_balance - amount
            }),
            final(self).admin == old(self).admin,
            final(self).token == old(self).token,
            final(self).admin_commission == old(self).admin_commission,
            final(self).cars == old(self).cars,
            final(self).rentals == old(self).rentals,
            old(self).solvent() ==> final(self).solvent(),
            old(self).rentals_exclusive() ==> final(self).rentals_exclusive(),
    {
        let admin = crate::storage::read_admin(self);
        if amount <= 0 {
            return Err(Error::AmountMustBePositive);
        }
        let admin_balance = crate::storage::read_admin_balance(self);
        if amount > admin_balance {
            return Err(Error::InsufficientBalance);
        }
        let contract_balance = crate::storage::read_contract_balance(self);
        if amount > contract_balance {
            return Err(Error::BalanceNotAvailableForAmountRequested);
        }
        crate::storage::write_admin_balance(self, admin_balance - amount);
        crate::storage::write_contract_balance(self, contract_balance - amount);
        proof {
            crate::laws::lemma_car_view_preserved(*old(self), *self);
            crate::laws::lemma_rental_view_preserved(*old(self), *self);
            if old(self).rentals_exclusive() {
                crate::laws::lemma_exclusive_preserved(*old(self), *self);
            }
        }
        Ok(TokenTransfer { from: Party::Contract, to: Party::Account(admin), amount })
    }

    /// The funds earmarked for the admin. Pure read, mutates nothing, needs
    /// no authorization.
    pub fn get_admin_balance(&self) -> (r: i128)
        ensures
            r == self.admin_balance,
    {
        crate::storage::read_admin_balance(self)
    }
}

} // verus!
